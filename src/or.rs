use vstd::prelude::*;

use crate::error::ParserError;
use crate::parser::{Parser, SpecResult};

verus! {

/// Ordered choice: `p1` on the input, and `p2` on the same input only where `p1` failed.
#[derive(Clone, Copy)]
pub struct Or<A, B> {
    pub p1: A,
    pub p2: B,
}

impl<A: Parser, B: Parser<Output = A::Output>> Parser for Or<A, B> {
    type Output = A::Output;

    open spec fn wf(&self) -> bool {
        self.p1.wf() && self.p2.wf()
    }

    open spec fn spec_parse(&self, input: Seq<char>) -> SpecResult<<A::Output as DeepView>::V> {
        match self.p1.spec_parse(input) {
            Ok(found) => Ok(found),
            Err(_) => self.p2.spec_parse(input),
        }
    }

    proof fn lemma_parse_suffix(&self, input: Seq<char>) {
        self.p1.lemma_parse_suffix(input);
        self.p2.lemma_parse_suffix(input);
    }

    fn parse<'a>(&self, input: &'a str) -> (r: Result<(A::Output, &'a str), ParserError>) {
        if let Ok(res) = self.p1.parse(input) {
            return Ok(res);
        }
        self.p2.parse(input)
    }
}

/// Tries `p1`, and `p2` from the same position if `p1` fails.
pub fn or<A: Parser, B: Parser<Output = A::Output>>(p1: A, p2: B) -> (r: Or<A, B>)
    ensures
        r.p1 == p1,
        r.p2 == p2,
{
    Or { p1, p2 }
}

} // verus!
