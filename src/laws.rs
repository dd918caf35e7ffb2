use vstd::prelude::*;
use vstd::utf8::encode_utf8;

use crate::chars::CharPredicate;
use crate::error::ParserError;
use crate::many::Many;
use crate::or::Or;
use crate::parser::Parser;
use crate::satisfy::Satisfy;
use crate::separate::SepBy;
use crate::string::spec_string;
use crate::text::utf8_width;

verus! {

/// `satisfy(pred)` succeeds exactly on non-empty input whose first codepoint passes `pred`;
/// it then yields that codepoint and removes exactly its encoded width from the front.
pub proof fn law_satisfy<F: CharPredicate>(pred: F, s: Seq<char>)
    ensures
        (Satisfy { predicate: pred }).spec_parse(s) is Ok <==> (s.len() > 0 && pred.holds(s[0])),
        (Satisfy { predicate: pred }).spec_parse(s) matches Ok((out, rest)) ==> {
            &&& out == seq![s[0]]
            &&& rest == s.drop_first()
            &&& encode_utf8(rest) == encode_utf8(s).skip(utf8_width(s[0]) as int)
        },
{
    if s.len() > 0 {
        assert(encode_utf8(s.drop_first()) =~= encode_utf8(s).skip(utf8_width(s[0]) as int));
    }
}

/// `many(p)` never fails.
pub proof fn law_many_never_fails<P: Parser<Output = String>>(p: P, s: Seq<char>)
    ensures
        (Many { parser: p }).spec_parse(s) is Ok,
{
}

/// When `p1` fails, `or(p1, p2)` gives `p2` the very input that `p1` was given.
pub proof fn law_or_retries_same_input<A: Parser, B: Parser<Output = A::Output>>(
    p1: A,
    p2: B,
    s: Seq<char>,
)
    requires
        p1.spec_parse(s) is Err,
    ensures
        (Or { p1, p2 }).spec_parse(s) == p2.spec_parse(s),
{
}

/// When the item parser fails, `sep_by` succeeds with no items and the input it was given.
/// When the separator after an item fails, the list ends with that item and the input as
/// the item left it.
pub proof fn law_sep_by_keeps_input_on_failure<P: Parser, S: Parser>(
    parser: P,
    separator: S,
    s: Seq<char>,
)
    ensures
        parser.spec_parse(s) is Err ==> (SepBy { parser, separator }).spec_parse(s) == Ok::<
            _,
            ParserError,
        >((Seq::<<P::Output as DeepView>::V>::empty(), s)),
        parser.spec_parse(s) matches Ok((v, rest)) ==> (separator.spec_parse(rest) is Err ==> (
        SepBy { parser, separator }).spec_parse(s) == Ok::<_, ParserError>((seq![v], rest))),
{
}

/// `or` is left-biased: where `p1` succeeds, its result is the result.
pub proof fn law_or_left_biased<A: Parser, B: Parser<Output = A::Output>>(
    p1: A,
    p2: B,
    s: Seq<char>,
)
    requires
        p1.spec_parse(s) is Ok,
    ensures
        (Or { p1, p2 }).spec_parse(s) == p1.spec_parse(s),
{
}

/// `string(lit)` on `lit` followed by any `tail` yields `lit` and leaves `tail`.
pub proof fn law_string_round_trip(lit: Seq<char>, tail: Seq<char>)
    ensures
        spec_string(lit, lit + tail) == Ok::<_, ParserError>((lit, tail)),
{
    assert(lit =~= (lit + tail).subrange(0, lit.len() as int));
    assert((lit + tail).skip(lit.len() as int) =~= tail);
}

} // verus!
