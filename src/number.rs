use vstd::prelude::*;

use crate::chars::{is_decimal_digit, Digit};
use crate::error::ParserError;
use crate::many::{many1, spec_many, spec_many1};
use crate::map::Mapping;
use crate::parser::{Parser, SpecResult};
use crate::satisfy::{satisfy, spec_one_char};
use crate::text::split_first;

verus! {

/// Parses one decimal digit.
pub fn digit() -> (r: impl Parser<Output = String> + Copy)
    ensures
        r.wf(),
        forall|s: Seq<char>| #[trigger]
            r.spec_parse(s) == spec_one_char(s, |c: char| is_decimal_digit(c)),
{
    satisfy(Digit)
}

/// The value of `c` as a digit: its distance from `'0'`.
pub open spec fn digit_value(c: char) -> i64 {
    ((c as u32) as i64 - ('0' as u32) as i64) as i64
}

/// `ds` read as a decimal numeral from left to right, `n = n * 10 + d` at each step, with
/// `i64` arithmetic that wraps on overflow.
pub open spec fn spec_decimal(ds: Seq<char>) -> i64
    decreases ds.len(),
{
    if ds.len() == 0 {
        0
    } else {
        spec_decimal(ds.drop_last()).wrapping_mul(10).wrapping_add(digit_value(ds.last()))
    }
}

/// The run of decimal digits at the front of `s`.
pub open spec fn digit_run(s: Seq<char>) -> Seq<char>
    decreases s.len(),
{
    if s.len() > 0 && is_decimal_digit(s[0]) {
        seq![s[0]] + digit_run(s.drop_first())
    } else {
        seq![]
    }
}

/// An unsigned decimal integer at the front of `s`: the value of the longest run of digits
/// there, and the rest after it. It needs at least one digit.
pub open spec fn spec_integer(s: Seq<char>) -> SpecResult<i64> {
    if s.len() == 0 {
        Err(ParserError::ParsePositionError)
    } else if !is_decimal_digit(s[0]) {
        Err(ParserError::NotSatisfy)
    } else {
        let ds = digit_run(s);
        Ok((spec_decimal(ds), s.skip(ds.len() as int)))
    }
}

/// The mapping from a string of digits to its decimal value.
#[derive(Clone, Copy, Debug)]
pub struct Decimal;

impl Mapping<String> for Decimal {
    type Out = i64;

    open spec fn wf(&self) -> bool {
        true
    }

    open spec fn spec_apply(&self, v: Seq<char>) -> i64 {
        spec_decimal(v)
    }

    fn apply(&self, a: String) -> (n: i64) {
        let mut n: i64 = 0;
        let mut rest: &str = a.as_str();
        let ghost mut done: Seq<char> = seq![];
        loop
            invariant
                a@ == done + rest@,
                n == spec_decimal(done),
            decreases rest@.len(),
        {
            match split_first(rest) {
                None => {
                    proof {
                        assert(done =~= a@);
                    }
                    return n;
                },
                Some((c, _, tail)) => {
                    let d = (c as u32) as i64 - ('0' as u32) as i64;
                    n = n.wrapping_mul(10).wrapping_add(d);
                    proof {
                        assert(done.push(c).drop_last() =~= done);
                        done = done.push(c);
                        assert(a@ =~= done + tail@);
                    }
                    rest = tail;
                },
            }
        }
    }
}

/// The run of digits is a prefix of its input.
proof fn lemma_digit_run(s: Seq<char>)
    ensures
        digit_run(s).is_prefix_of(s),
    decreases s.len(),
{
    if s.len() > 0 && is_decimal_digit(s[0]) {
        lemma_digit_run(s.drop_first());
        assert(digit_run(s) =~= s.subrange(0, digit_run(s).len() as int));
    }
}

/// Skipping the run of digits, one step at a time.
proof fn lemma_skip_run(s: Seq<char>)
    requires
        s.len() > 0,
        is_decimal_digit(s[0]),
    ensures
        s.skip(digit_run(s).len() as int) =~= s.drop_first().skip(
            digit_run(s.drop_first()).len() as int,
        ),
{
    lemma_digit_run(s.drop_first());
    assert(digit_run(s).len() == 1 + digit_run(s.drop_first()).len());
}

/// Repetition of a one-digit parser takes the whole run of digits.
proof fn lemma_many_digits<P: Parser<Output = String>>(p: P, s: Seq<char>)
    requires
        forall|t: Seq<char>| #[trigger]
            p.spec_parse(t) == spec_one_char(t, |c: char| is_decimal_digit(c)),
    ensures
        spec_many(p, s) == (digit_run(s), s.skip(digit_run(s).len() as int)),
    decreases s.len(),
{
    assert(p.spec_parse(s) == spec_one_char(s, |c: char| is_decimal_digit(c)));
    if s.len() > 0 && is_decimal_digit(s[0]) {
        lemma_many_digits(p, s.drop_first());
        lemma_skip_run(s);
    } else {
        assert(s.skip(0) =~= s);
    }
}

/// Parses an unsigned decimal integer: one or more digits, accumulated left to right.
pub fn integer() -> (r: impl Parser<Output = i64> + Copy)
    ensures
        r.wf(),
        forall|s: Seq<char>| #[trigger] r.spec_parse(s) == spec_integer(s),
{
    let d = digit();
    let r = many1(d).map(Decimal);
    proof {
        assert forall|s: Seq<char>| #[trigger] r.spec_parse(s) == spec_integer(s) by {
            assert(d.spec_parse(s) == spec_one_char(s, |c: char| is_decimal_digit(c)));
            if s.len() > 0 && is_decimal_digit(s[0]) {
                lemma_many_digits(d, s.drop_first());
                assert(spec_many1(d, s) matches Ok((v, _)) && v =~= digit_run(s));
                lemma_skip_run(s);
            }
        }
    }
    r
}

} // verus!
