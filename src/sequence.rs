use vstd::prelude::*;

use crate::error::ParserError;
use crate::parser::{Parser, SpecResult};
use crate::text::lemma_suffix_trans;

verus! {

/// Runs `p1`, then `p2` on what `p1` left; the two string outputs are concatenated.
#[derive(Clone, Copy)]
pub struct Sequence2<A: Parser<Output = String>, B: Parser<Output = String>> {
    pub p1: A,
    pub p2: B,
}

impl<A: Parser<Output = String>, B: Parser<Output = String>> Parser for Sequence2<A, B> {
    type Output = String;

    open spec fn wf(&self) -> bool {
        self.p1.wf() && self.p2.wf()
    }

    open spec fn spec_parse(&self, input: Seq<char>) -> SpecResult<Seq<char>> {
        match self.p1.spec_parse(input) {
            Err(e) => Err(e),
            Ok((v1, rest1)) => match self.p2.spec_parse(rest1) {
                Err(e) => Err(e),
                Ok((v2, rest2)) => Ok((v1 + v2, rest2)),
            },
        }
    }

    proof fn lemma_parse_suffix(&self, input: Seq<char>) {
        self.p1.lemma_parse_suffix(input);
        if let Ok((_, rest1)) = self.p1.spec_parse(input) {
            self.p2.lemma_parse_suffix(rest1);
            if let Ok((_, rest2)) = self.p2.spec_parse(rest1) {
                lemma_suffix_trans(rest2, rest1, input);
            }
        }
    }

    fn parse<'a>(&self, input: &'a str) -> (r: Result<(String, &'a str), ParserError>) {
        let (res1, rest) = self.p1.parse(input)?;
        let (res2, rest) = self.p2.parse(rest)?;
        let mut out = res1;
        out.append(res2.as_str());
        Ok((out, rest))
    }
}

/// Sequences two string parsers, concatenating their outputs.
pub fn sequence2<A: Parser<Output = String>, B: Parser<Output = String>>(p1: A, p2: B) -> (r:
    Sequence2<A, B>)
    ensures
        r.p1 == p1,
        r.p2 == p2,
{
    Sequence2 { p1, p2 }
}

/// A pair of parsers runs them in order; the output is the pair of their outputs.
impl<A: Parser, B: Parser> Parser for (A, B) {
    type Output = (A::Output, B::Output);

    open spec fn wf(&self) -> bool {
        self.0.wf() && self.1.wf()
    }

    open spec fn spec_parse(&self, input: Seq<char>) -> SpecResult<
        (<A::Output as DeepView>::V, <B::Output as DeepView>::V),
    > {
        match self.0.spec_parse(input) {
            Err(e) => Err(e),
            Ok((v1, rest1)) => match self.1.spec_parse(rest1) {
                Err(e) => Err(e),
                Ok((v2, rest2)) => Ok(((v1, v2), rest2)),
            },
        }
    }

    proof fn lemma_parse_suffix(&self, input: Seq<char>) {
        self.0.lemma_parse_suffix(input);
        if let Ok((_, rest1)) = self.0.spec_parse(input) {
            self.1.lemma_parse_suffix(rest1);
            if let Ok((_, rest2)) = self.1.spec_parse(rest1) {
                lemma_suffix_trans(rest2, rest1, input);
            }
        }
    }

    fn parse<'a>(&self, input: &'a str) -> (r: Result<(Self::Output, &'a str), ParserError>) {
        let (a, rest) = self.0.parse(input)?;
        let (b, rest) = self.1.parse(rest)?;
        Ok(((a, b), rest))
    }
}

/// A triple of parsers runs them in order; the output is the triple of their outputs.
impl<A: Parser, B: Parser, C: Parser> Parser for (A, B, C) {
    type Output = (A::Output, B::Output, C::Output);

    open spec fn wf(&self) -> bool {
        self.0.wf() && self.1.wf() && self.2.wf()
    }

    open spec fn spec_parse(&self, input: Seq<char>) -> SpecResult<
        (<A::Output as DeepView>::V, <B::Output as DeepView>::V, <C::Output as DeepView>::V),
    > {
        match self.0.spec_parse(input) {
            Err(e) => Err(e),
            Ok((v1, rest1)) => match self.1.spec_parse(rest1) {
                Err(e) => Err(e),
                Ok((v2, rest2)) => match self.2.spec_parse(rest2) {
                    Err(e) => Err(e),
                    Ok((v3, rest3)) => Ok(((v1, v2, v3), rest3)),
                },
            },
        }
    }

    proof fn lemma_parse_suffix(&self, input: Seq<char>) {
        self.0.lemma_parse_suffix(input);
        if let Ok((_, rest1)) = self.0.spec_parse(input) {
            self.1.lemma_parse_suffix(rest1);
            if let Ok((_, rest2)) = self.1.spec_parse(rest1) {
                lemma_suffix_trans(rest2, rest1, input);
                self.2.lemma_parse_suffix(rest2);
                if let Ok((_, rest3)) = self.2.spec_parse(rest2) {
                    lemma_suffix_trans(rest3, rest2, input);
                }
            }
        }
    }

    fn parse<'a>(&self, input: &'a str) -> (r: Result<(Self::Output, &'a str), ParserError>) {
        let (a, rest) = self.0.parse(input)?;
        let (b, rest) = self.1.parse(rest)?;
        let (c, rest) = self.2.parse(rest)?;
        Ok(((a, b, c), rest))
    }
}

/// Four parsers run in order; the output is the tuple of their outputs.
impl<A: Parser, B: Parser, C: Parser, D: Parser> Parser for (A, B, C, D) {
    type Output = (A::Output, B::Output, C::Output, D::Output);

    open spec fn wf(&self) -> bool {
        self.0.wf() && self.1.wf() && self.2.wf() && self.3.wf()
    }

    open spec fn spec_parse(&self, input: Seq<char>) -> SpecResult<
        (
            <A::Output as DeepView>::V,
            <B::Output as DeepView>::V,
            <C::Output as DeepView>::V,
            <D::Output as DeepView>::V,
        ),
    > {
        match (self.0, self.1, self.2).spec_parse(input) {
            Err(e) => Err(e),
            Ok(((v1, v2, v3), rest3)) => match self.3.spec_parse(rest3) {
                Err(e) => Err(e),
                Ok((v4, rest4)) => Ok(((v1, v2, v3, v4), rest4)),
            },
        }
    }

    proof fn lemma_parse_suffix(&self, input: Seq<char>) {
        (self.0, self.1, self.2).lemma_parse_suffix(input);
        if let Ok((_, rest3)) = (self.0, self.1, self.2).spec_parse(input) {
            self.3.lemma_parse_suffix(rest3);
            if let Ok((_, rest4)) = self.3.spec_parse(rest3) {
                lemma_suffix_trans(rest4, rest3, input);
            }
        }
    }

    fn parse<'a>(&self, input: &'a str) -> (r: Result<(Self::Output, &'a str), ParserError>) {
        let (a, rest) = self.0.parse(input)?;
        let (b, rest) = self.1.parse(rest)?;
        let (c, rest) = self.2.parse(rest)?;
        let (d, rest) = self.3.parse(rest)?;
        Ok(((a, b, c, d), rest))
    }
}

} // verus!
