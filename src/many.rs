use vstd::prelude::*;

use crate::error::ParserError;
use crate::parser::{Parser, SpecResult};
use crate::text::{is_shorter, lemma_suffix_trans};

verus! {

/// Repetition of `p` from `input`: the concatenated outputs and the rest. It stops at the
/// first attempt that fails or consumes nothing, and leaves the input as it was before
/// that attempt.
pub open spec fn spec_many<P: Parser<Output = String>>(p: P, input: Seq<char>) -> (
    Seq<char>,
    Seq<char>,
)
    decreases input.len(),
{
    match p.spec_parse(input) {
        Ok((v, rest)) => if rest.len() < input.len() {
            let (vs, last) = spec_many(p, rest);
            (v + vs, last)
        } else {
            (seq![], input)
        },
        Err(_) => (seq![], input),
    }
}

/// One parse of `p`, which must succeed, then `spec_many` of `p` on the rest.
pub open spec fn spec_many1<P: Parser<Output = String>>(p: P, input: Seq<char>) -> SpecResult<
    Seq<char>,
> {
    match p.spec_parse(input) {
        Err(e) => Err(e),
        Ok((v, rest)) => {
            let (vs, last) = spec_many(p, rest);
            Ok((v + vs, last))
        },
    }
}

/// What `spec_many` leaves is a suffix of its input.
pub proof fn lemma_many_suffix<P: Parser<Output = String>>(p: P, input: Seq<char>)
    ensures
        spec_many(p, input).1.is_suffix_of(input),
    decreases input.len(),
{
    p.lemma_parse_suffix(input);
    if let Ok((v, rest)) = p.spec_parse(input) {
        if rest.len() < input.len() {
            lemma_many_suffix(p, rest);
            lemma_suffix_trans(spec_many(p, rest).1, rest, input);
        }
    }
}

/// Runs `p` repeatedly from `input` as `spec_many` states.
fn run_many<'a, P: Parser<Output = String>>(p: &P, input: &'a str) -> (r: (String, &'a str))
    requires
        p.wf(),
    ensures
        (r.0@, r.1@) == spec_many(*p, input@),
{
    let mut cur = input;
    let mut res = String::new();
    loop
        invariant
            p.wf(),
            res@ + spec_many(*p, cur@).0 == spec_many(*p, input@).0,
            spec_many(*p, cur@).1 == spec_many(*p, input@).1,
        decreases cur@.len(),
    {
        match p.parse(cur) {
            Ok((s, rest)) => {
                proof {
                    p.lemma_parse_suffix(cur@);
                }
                if is_shorter(rest, cur) {
                    proof {
                        assert(res@ + (s@ + spec_many(*p, rest@).0) =~= res@ + s@ + spec_many(
                            *p,
                            rest@,
                        ).0);
                    }
                    res.append(s.as_str());
                    cur = rest;
                } else {
                    proof {
                        assert(res@ + Seq::<char>::empty() =~= res@);
                    }
                    return (res, cur);
                }
            },
            Err(_) => {
                proof {
                    assert(res@ + Seq::<char>::empty() =~= res@);
                }
                return (res, cur);
            },
        }
    }
}

/// Zero or more repetitions of `parser`, concatenated; never fails.
#[derive(Clone, Copy)]
pub struct Many<P: Parser<Output = String>> {
    pub parser: P,
}

impl<P: Parser<Output = String>> Parser for Many<P> {
    type Output = String;

    open spec fn wf(&self) -> bool {
        self.parser.wf()
    }

    open spec fn spec_parse(&self, input: Seq<char>) -> SpecResult<Seq<char>> {
        Ok(spec_many(self.parser, input))
    }

    proof fn lemma_parse_suffix(&self, input: Seq<char>) {
        lemma_many_suffix(self.parser, input);
    }

    fn parse<'a>(&self, input: &'a str) -> (r: Result<(String, &'a str), ParserError>) {
        Ok(run_many(&self.parser, input))
    }
}

/// Zero or more repetitions of `parser`, with the outputs concatenated.
pub fn many<P: Parser<Output = String>>(parser: P) -> (r: impl Parser<Output = String>)
    ensures
        r.wf() == parser.wf(),
        forall|s: Seq<char>| #[trigger] r.spec_parse(s) == Ok::<_, ParserError>(spec_many(parser, s)),
{
    Many { parser }
}

/// One or more repetitions of `parser`, concatenated.
#[derive(Clone, Copy)]
pub struct Many1<P: Parser<Output = String>> {
    pub parser: P,
}

impl<P: Parser<Output = String>> Parser for Many1<P> {
    type Output = String;

    open spec fn wf(&self) -> bool {
        self.parser.wf()
    }

    open spec fn spec_parse(&self, input: Seq<char>) -> SpecResult<Seq<char>> {
        spec_many1(self.parser, input)
    }

    proof fn lemma_parse_suffix(&self, input: Seq<char>) {
        self.parser.lemma_parse_suffix(input);
        if let Ok((_, rest)) = self.parser.spec_parse(input) {
            lemma_many_suffix(self.parser, rest);
            lemma_suffix_trans(spec_many(self.parser, rest).1, rest, input);
        }
    }

    fn parse<'a>(&self, input: &'a str) -> (r: Result<(String, &'a str), ParserError>) {
        let (first, rest) = self.parser.parse(input)?;
        let (more, last) = run_many(&self.parser, rest);
        let mut out = first;
        out.append(more.as_str());
        Ok((out, last))
    }
}

/// One or more repetitions of `parser`; fails with the first attempt's error when there is
/// none.
pub fn many1<P: Parser<Output = String> + Copy>(parser: P) -> (r: impl Parser<Output = String> + Copy)
    ensures
        r.wf() == parser.wf(),
        forall|s: Seq<char>| #[trigger] r.spec_parse(s) == spec_many1(parser, s),
{
    Many1 { parser }
}

} // verus!
