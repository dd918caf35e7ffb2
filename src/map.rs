use vstd::prelude::*;

use crate::error::ParserError;
use crate::parser::{Parser, SpecResult};

verus! {

/// A function applied to a parser's output, with its meaning on models.
pub trait Mapping<A: DeepView> {
    type Out: DeepView;

    /// The conditions under which `apply` may run.
    spec fn wf(&self) -> bool;

    /// The model of the result on an argument whose model is `v`.
    spec fn spec_apply(&self, v: A::V) -> <Self::Out as DeepView>::V;

    fn apply(&self, a: A) -> (b: Self::Out)
        requires
            self.wf(),
        ensures
            b.deep_view() == self.spec_apply(a.deep_view()),
    ;
}

/// A closure is a mapping when it may be called on every argument and is pure: arguments
/// with equal models give results with equal models.
impl<A: DeepView, B: DeepView, F: Fn(A) -> B> Mapping<A> for F {
    type Out = B;

    open spec fn wf(&self) -> bool {
        &&& forall|a: A| self.requires((a,))
        &&& forall|a1: A, a2: A, b1: B, b2: B|
            a1.deep_view() == a2.deep_view() && #[trigger] self.ensures((a1,), b1)
                && #[trigger] self.ensures((a2,), b2) ==> b1.deep_view() == b2.deep_view()
    }

    open spec fn spec_apply(&self, v: A::V) -> B::V {
        let ab = choose|ab: (A, B)| ab.0.deep_view() == v && #[trigger] self.ensures((ab.0,), ab.1);
        ab.1.deep_view()
    }

    fn apply(&self, a: A) -> (b: B) {
        let ghost ga = a;
        let b = (self)(a);
        proof {
            let w = (ga, b);
            assert(w.0.deep_view() == ga.deep_view() && self.ensures((w.0,), w.1));
        }
        b
    }
}

/// A parser whose output goes through `.1` on success.
#[derive(Clone, Copy)]
pub struct Mapped<P, F>(pub P, pub F);

impl<P: Parser, F: Mapping<P::Output>> Parser for Mapped<P, F> {
    type Output = F::Out;

    open spec fn wf(&self) -> bool {
        self.0.wf() && self.1.wf()
    }

    open spec fn spec_parse(&self, input: Seq<char>) -> SpecResult<
        <F::Out as DeepView>::V,
    > {
        match self.0.spec_parse(input) {
            Ok((v, rest)) => Ok((self.1.spec_apply(v), rest)),
            Err(e) => Err(e),
        }
    }

    proof fn lemma_parse_suffix(&self, input: Seq<char>) {
        self.0.lemma_parse_suffix(input);
    }

    fn parse<'a>(&self, input: &'a str) -> (r: Result<(F::Out, &'a str), ParserError>) {
        match self.0.parse(input) {
            Ok((a, rest)) => Ok((self.1.apply(a), rest)),
            Err(e) => Err(e),
        }
    }
}

/// Wraps `p` so that its output on success is transformed by `f`; a failure passes through
/// and `f` is not called.
pub fn map<P, F>(p: P, f: F) -> (r: Mapped<P, F>) where P: Parser, F: Mapping<P::Output>
    ensures
        r.0 == p,
        r.1 == f,
{
    Mapped(p, f)
}

} // verus!
