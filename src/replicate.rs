use vstd::prelude::*;

use crate::error::ParserError;
use crate::parser::{Parser, SpecResult};
use crate::text::lemma_suffix_trans;

verus! {

/// Exactly `n` parses of `p` in sequence with the outputs concatenated; the first failure
/// is the result.
pub open spec fn spec_replicate<P: Parser<Output = String>>(p: P, n: nat, input: Seq<char>) -> SpecResult<Seq<char>>
    decreases n,
{
    if n == 0 {
        Ok((seq![], input))
    } else {
        match p.spec_parse(input) {
            Err(e) => Err(e),
            Ok((v, rest)) => match spec_replicate(p, (n - 1) as nat, rest) {
                Err(e) => Err(e),
                Ok((vs, last)) => Ok((v + vs, last)),
            },
        }
    }
}

/// What `spec_replicate` leaves is a suffix of its input.
pub proof fn lemma_replicate_suffix<P: Parser<Output = String>>(p: P, n: nat, input: Seq<char>)
    ensures
        spec_replicate(p, n, input) matches Ok((_, last)) ==> last.is_suffix_of(input),
    decreases n,
{
    if n > 0 {
        p.lemma_parse_suffix(input);
        if let Ok((_, rest)) = p.spec_parse(input) {
            lemma_replicate_suffix(p, (n - 1) as nat, rest);
            if let Ok((_, last)) = spec_replicate(p, (n - 1) as nat, rest) {
                lemma_suffix_trans(last, rest, input);
            }
        }
    }
}

/// `n` repetitions of `parser`, concatenated.
#[derive(Clone, Copy)]
pub struct Replicate<P: Parser<Output = String>> {
    pub n: usize,
    pub parser: P,
}

impl<P: Parser<Output = String>> Parser for Replicate<P> {
    type Output = String;

    open spec fn wf(&self) -> bool {
        self.parser.wf()
    }

    open spec fn spec_parse(&self, input: Seq<char>) -> SpecResult<Seq<char>> {
        spec_replicate(self.parser, self.n as nat, input)
    }

    proof fn lemma_parse_suffix(&self, input: Seq<char>) {
        lemma_replicate_suffix(self.parser, self.n as nat, input);
    }

    fn parse<'a>(&self, input: &'a str) -> (r: Result<(String, &'a str), ParserError>) {
        let mut cur = input;
        let mut res = String::new();
        let mut i: usize = 0;
        while i < self.n
            invariant
                self.parser.wf(),
                i <= self.n,
                spec_replicate(self.parser, self.n as nat, input@) == match spec_replicate(
                    self.parser,
                    (self.n - i) as nat,
                    cur@,
                ) {
                    Ok((vs, last)) => Ok((res@ + vs, last)),
                    Err(e) => Err(e),
                },
            decreases self.n - i,
        {
            let (s, rest) = self.parser.parse(cur)?;
            proof {
                let k = (self.n - i) as nat;
                assert(spec_replicate(self.parser, k, cur@) == match spec_replicate(
                    self.parser,
                    (k - 1) as nat,
                    rest@,
                ) {
                    Ok((vs, last)) => Ok((s@ + vs, last)),
                    Err(e) => Err(e),
                });
                if let Ok((vs, last)) = spec_replicate(self.parser, (k - 1) as nat, rest@) {
                    assert(res@ + (s@ + vs) =~= (res@ + s@) + vs);
                }
            }
            res.append(s.as_str());
            cur = rest;
            i = i + 1;
        }
        proof {
            assert(res@ + Seq::<char>::empty() =~= res@);
        }
        Ok((res, cur))
    }
}

/// Applies `parser` exactly `n` times; `n == 0` succeeds with the empty string.
pub fn replicate<P: Parser<Output = String>>(n: usize, parser: P) -> (r: impl Parser<
    Output = String,
>)
    ensures
        r.wf() == parser.wf(),
        forall|s: Seq<char>| #[trigger] r.spec_parse(s) == spec_replicate(parser, n as nat, s),
{
    Replicate { parser, n }
}

} // verus!
