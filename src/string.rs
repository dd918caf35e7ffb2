use vstd::prelude::*;

use crate::chars::{
    unicode_alphabetic, unicode_alphanumeric, unicode_lowercase, unicode_uppercase, Alphanumeric,
    Equals, Letter, Lower, Upper,
};
use crate::error::ParserError;
use crate::parser::{Parser, SpecResult};
use crate::satisfy::{satisfy, spec_one_char};
use crate::text::split_first;

verus! {

/// Parses exactly the codepoint `ch`.
pub fn char1(ch: char) -> (r: impl Parser<Output = String> + Copy)
    ensures
        r.wf(),
        forall|s: Seq<char>| #[trigger] r.spec_parse(s) == spec_one_char(s, |c: char| c == ch),
{
    satisfy(Equals(ch))
}

/// Parses one uppercase codepoint.
pub fn upper() -> (r: impl Parser<Output = String> + Copy)
    ensures
        r.wf(),
        forall|s: Seq<char>| #[trigger]
            r.spec_parse(s) == spec_one_char(s, |c: char| unicode_uppercase(c)),
{
    satisfy(Upper)
}

/// Parses one lowercase codepoint.
pub fn lower() -> (r: impl Parser<Output = String> + Copy)
    ensures
        r.wf(),
        forall|s: Seq<char>| #[trigger]
            r.spec_parse(s) == spec_one_char(s, |c: char| unicode_lowercase(c)),
{
    satisfy(Lower)
}

/// Parses one alphabetic or numeric codepoint.
pub fn alphanumeric() -> (r: impl Parser<Output = String> + Copy)
    ensures
        r.wf(),
        forall|s: Seq<char>| #[trigger]
            r.spec_parse(s) == spec_one_char(s, |c: char| unicode_alphanumeric(c)),
{
    satisfy(Alphanumeric)
}

/// Parses one alphabetic codepoint.
pub fn letter() -> (r: impl Parser<Output = String> + Copy)
    ensures
        r.wf(),
        forall|s: Seq<char>| #[trigger]
            r.spec_parse(s) == spec_one_char(s, |c: char| unicode_alphabetic(c)),
{
    satisfy(Letter)
}

/// Parses one line feed, `'\n'`.
pub fn newline() -> (r: impl Parser<Output = String> + Copy)
    ensures
        r.wf(),
        forall|s: Seq<char>| #[trigger] r.spec_parse(s) == spec_one_char(s, |c: char| c == '\n'),
{
    satisfy(Equals('\n'))
}

/// Parses one space character `' '`, and no other kind of blank.
pub fn whitespace() -> (r: impl Parser<Output = String> + Copy)
    ensures
        r.wf(),
        forall|s: Seq<char>| #[trigger] r.spec_parse(s) == spec_one_char(s, |c: char| c == ' '),
{
    satisfy(Equals(' '))
}

/// The literal `lit` at the front of `input`: the literal and the rest after it. Input that
/// ends inside the literal gives `ParsePositionError`; a differing codepoint gives
/// `NotSatisfy`.
pub open spec fn spec_string(lit: Seq<char>, input: Seq<char>) -> SpecResult<Seq<char>> {
    if lit.is_prefix_of(input) {
        Ok((lit, input.skip(lit.len() as int)))
    } else if input.is_prefix_of(lit) {
        Err(ParserError::ParsePositionError)
    } else {
        Err(ParserError::NotSatisfy)
    }
}

/// Matching a literal is matching its first codepoint, then the rest of it.
proof fn lemma_string_step(lit: Seq<char>, input: Seq<char>)
    requires
        lit.len() > 0,
    ensures
        input.len() == 0 ==> spec_string(lit, input) == Err::<(Seq<char>, Seq<char>), _>(
            ParserError::ParsePositionError,
        ),
        input.len() > 0 && input[0] != lit[0] ==> spec_string(lit, input) == Err::<
            (Seq<char>, Seq<char>),
            _,
        >(ParserError::NotSatisfy),
        input.len() > 0 && input[0] == lit[0] ==> spec_string(lit, input) == match spec_string(
            lit.drop_first(),
            input.drop_first(),
        ) {
            Ok((v, rest)) => Ok((seq![lit[0]] + v, rest)),
            Err(e) => Err(e),
        },
{
    if input.len() == 0 {
        assert(input.is_prefix_of(lit));
    } else if input[0] != lit[0] {
        assert(!lit.is_prefix_of(input));
        assert(!input.is_prefix_of(lit));
    } else {
        let l = lit.drop_first();
        let s = input.drop_first();
        assert(lit =~= seq![lit[0]] + l);
        assert(input =~= seq![input[0]] + s);
        assert(lit.is_prefix_of(input) <==> l.is_prefix_of(s)) by {
            if l.is_prefix_of(s) {
                assert(lit =~= input.subrange(0, lit.len() as int));
            }
            if lit.is_prefix_of(input) {
                assert(l =~= s.subrange(0, l.len() as int));
            }
        }
        assert(input.is_prefix_of(lit) <==> s.is_prefix_of(l)) by {
            if s.is_prefix_of(l) {
                assert(s =~= l.subrange(0, s.len() as int));
                assert(lit.subrange(0, input.len() as int) =~= seq![lit[0]] + l.subrange(
                    0,
                    s.len() as int,
                ));
            }
            if input.is_prefix_of(lit) {
                assert(s =~= l.subrange(0, s.len() as int));
            }
        }
        if l.is_prefix_of(s) {
            assert(input.skip(lit.len() as int) =~= s.skip(l.len() as int));
        }
    }
}

/// The parser of a fixed literal.
#[derive(Clone)]
pub struct Str {
    pub s: String,
}

impl Parser for Str {
    type Output = String;

    open spec fn wf(&self) -> bool {
        true
    }

    open spec fn spec_parse(&self, input: Seq<char>) -> SpecResult<Seq<char>> {
        spec_string(self.s@, input)
    }

    proof fn lemma_parse_suffix(&self, input: Seq<char>) {
    }

    fn parse<'b>(&self, input: &'b str) -> (r: Result<(String, &'b str), ParserError>) {
        let mut rest: &str = input;
        let mut output = String::new();
        let mut lit: &str = self.s.as_str();
        loop
            invariant
                spec_string(self.s@, input@) == match spec_string(lit@, rest@) {
                    Ok((v, last)) => Ok((output@ + v, last)),
                    Err(e) => Err(e),
                },
            decreases lit@.len(),
        {
            match split_first(lit) {
                None => {
                    proof {
                        assert(lit@.is_prefix_of(rest@));
                        assert(rest@.skip(0) =~= rest@);
                        assert(output@ + lit@ =~= output@);
                    }
                    return Ok((output, rest));
                },
                Some((c, _, lit_rest)) => {
                    proof {
                        lemma_string_step(lit@, rest@);
                    }
                    let (a, b) = char1(c).parse(rest)?;
                    proof {
                        let after = spec_string(lit_rest@, b@);
                        if let Ok((v, last)) = after {
                            assert(output@ + (seq![c] + v) =~= output@ + a@ + v);
                        }
                    }
                    output.append(a.as_str());
                    rest = b;
                    lit = lit_rest;
                },
            }
        }
    }
}

/// Parses the literal `s`, codepoint by codepoint.
pub fn string(s: &str) -> (r: impl Parser<Output = String>)
    ensures
        r.wf(),
        forall|input: Seq<char>| #[trigger] r.spec_parse(input) == spec_string(s@, input),
{
    Str { s: s.to_owned() }
}

} // verus!
