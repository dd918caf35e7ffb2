use vstd::prelude::*;

use crate::chars::CharPredicate;
use crate::error::ParserError;
use crate::parser::{Parser, SpecResult};
use crate::text::split_first;

verus! {

/// One codepoint that passes `holds`: the codepoint as a one-codepoint string and the rest;
/// `ParsePositionError` on empty input, `NotSatisfy` when the first codepoint fails.
pub open spec fn spec_one_char(input: Seq<char>, holds: spec_fn(char) -> bool) -> SpecResult<
    Seq<char>,
> {
    if input.len() == 0 {
        Err(ParserError::ParsePositionError)
    } else if holds(input[0]) {
        Ok((seq![input[0]], input.drop_first()))
    } else {
        Err(ParserError::NotSatisfy)
    }
}

/// The parser of one codepoint accepted by `predicate`.
#[derive(Clone, Copy)]
pub struct Satisfy<F: CharPredicate> {
    pub predicate: F,
}

/// Parses exactly one codepoint from the front of the input if `predicate` holds on it.
pub fn satisfy<F>(predicate: F) -> (r: Satisfy<F>) where F: CharPredicate
    ensures
        r.predicate == predicate,
{
    Satisfy { predicate }
}

impl<F: CharPredicate> Parser for Satisfy<F> {
    type Output = String;

    open spec fn wf(&self) -> bool {
        self.predicate.wf()
    }

    open spec fn spec_parse(&self, input: Seq<char>) -> SpecResult<Seq<char>> {
        spec_one_char(input, |c: char| self.predicate.holds(c))
    }

    proof fn lemma_parse_suffix(&self, input: Seq<char>) {
    }

    fn parse<'a>(&self, input: &'a str) -> (r: Result<(String, &'a str), ParserError>) {
        match split_first(input) {
            None => Err(ParserError::ParsePositionError),
            Some((c, head, rest)) => {
                if self.predicate.test(c) {
                    Ok((head.to_owned(), rest))
                } else {
                    Err(ParserError::NotSatisfy)
                }
            },
        }
    }
}

} // verus!
