use vstd::prelude::*;

use crate::error::ParserError;
use crate::map::{Mapped, Mapping};

verus! {

/// The meaning of a parse: the model of the output and the remaining input, or the error.
pub type SpecResult<V> = Result<(V, Seq<char>), ParserError>;

/// The meaning of what an executable `parse` returned.
pub open spec fn result_view<'a, O: DeepView>(r: Result<(O, &'a str), ParserError>) -> SpecResult<
    O::V,
> {
    match r {
        Ok((o, rest)) => Ok((o.deep_view(), rest@)),
        Err(e) => Err(e),
    }
}

/// A parser consumes a prefix of its input and yields a value and the rest, or fails.
///
/// `spec_parse` states the result on every input; `parse` computes it. A failure carries
/// no input: the caller keeps the view it handed in, which is what lets `or` and `sep_by`
/// backtrack.
pub trait Parser {
    type Output: DeepView;

    /// The conditions under which `parse` may run (closures total and pure, children fit).
    spec fn wf(&self) -> bool;

    /// What parsing `input` yields.
    spec fn spec_parse(&self, input: Seq<char>) -> SpecResult<<Self::Output as DeepView>::V>;

    /// A successful parse leaves a suffix of its input.
    proof fn lemma_parse_suffix(&self, input: Seq<char>)
        ensures
            self.spec_parse(input) matches Ok((_, rest)) ==> rest.is_suffix_of(input),
    ;

    fn parse<'a>(&self, input: &'a str) -> (r: Result<(Self::Output, &'a str), ParserError>)
        requires
            self.wf(),
        ensures
            result_view(r) == self.spec_parse(input@),
    ;

    /// Transforms the output of a successful parse by `f`.
    fn map<F>(self, f: F) -> (r: Mapped<Self, F>) where Self: Sized, F: Mapping<Self::Output>

        ensures
            r.0 == self,
            r.1 == f,
    {
        Mapped(self, f)
    }
}

} // verus!
