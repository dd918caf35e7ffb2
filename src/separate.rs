use vstd::prelude::*;

use crate::error::ParserError;
use crate::parser::{Parser, SpecResult};
use crate::text::{is_shorter, lemma_suffix_trans};

verus! {

/// Items of `p` separated by `sep`, from `input`: the items and the rest.
///
/// An item that fails ends the list before it; an item that takes the whole input ends it
/// after it; a separator that fails, or a round of item and separator that consumes
/// nothing, ends it after the item, with the rest as the item left it.
pub open spec fn spec_sep_by<P: Parser, S: Parser>(p: P, sep: S, input: Seq<char>) -> (
    Seq<<P::Output as DeepView>::V>,
    Seq<char>,
)
    decreases input.len(),
{
    match p.spec_parse(input) {
        Err(_) => (seq![], input),
        Ok((v, rest)) => if rest.len() == 0 {
            (seq![v], rest)
        } else {
            match sep.spec_parse(rest) {
                Err(_) => (seq![v], rest),
                Ok((_, after)) => if after.len() < input.len() {
                    let (vs, last) = spec_sep_by(p, sep, after);
                    (seq![v] + vs, last)
                } else {
                    (seq![v], rest)
                },
            }
        },
    }
}

/// What `spec_sep_by` leaves is a suffix of its input.
pub proof fn lemma_sep_by_suffix<P: Parser, S: Parser>(p: P, sep: S, input: Seq<char>)
    ensures
        spec_sep_by(p, sep, input).1.is_suffix_of(input),
    decreases input.len(),
{
    p.lemma_parse_suffix(input);
    if let Ok((_, rest)) = p.spec_parse(input) {
        sep.lemma_parse_suffix(rest);
        if let Ok((_, after)) = sep.spec_parse(rest) {
            lemma_suffix_trans(after, rest, input);
            if rest.len() != 0 && after.len() < input.len() {
                lemma_sep_by_suffix(p, sep, after);
                lemma_suffix_trans(spec_sep_by(p, sep, after).1, after, input);
            }
        }
    }
}

/// A list of `parser` items separated by `separator`, possibly empty; never fails.
#[derive(Clone)]
pub struct SepBy<P, S> {
    pub parser: P,
    pub separator: S,
}

impl<P: Parser, S: Parser> Parser for SepBy<P, S> {
    type Output = Vec<P::Output>;

    open spec fn wf(&self) -> bool {
        self.parser.wf() && self.separator.wf()
    }

    open spec fn spec_parse(&self, input: Seq<char>) -> SpecResult<
        Seq<<P::Output as DeepView>::V>,
    > {
        Ok(spec_sep_by(self.parser, self.separator, input))
    }

    proof fn lemma_parse_suffix(&self, input: Seq<char>) {
        lemma_sep_by_suffix(self.parser, self.separator, input);
    }

    fn parse<'b>(&self, input: &'b str) -> (r: Result<(Vec<P::Output>, &'b str), ParserError>) {
        let ghost p = self.parser;
        let ghost sep = self.separator;
        let ghost goal = spec_sep_by(p, sep, input@);
        let mut items: Vec<P::Output> = Vec::new();
        let mut rest = input;
        loop
            invariant
                p == self.parser,
                sep == self.separator,
                self.wf(),
                goal == spec_sep_by(p, sep, input@),
                items.deep_view() + spec_sep_by(p, sep, rest@).0 == goal.0,
                spec_sep_by(p, sep, rest@).1 == goal.1,
            decreases rest@.len(),
        {
            let ghost before = items.deep_view();
            match self.parser.parse(rest) {
                Ok((item, after_item)) => {
                    let ghost v = item.deep_view();
                    items.push(item);
                    proof {
                        assert(items.deep_view() =~= before.push(v));
                        p.lemma_parse_suffix(rest@);
                    }
                    if after_item.is_empty() {
                        proof {
                            assert(items.deep_view() =~= before + seq![v]);
                        }
                        return Ok((items, after_item));
                    }
                    match self.separator.parse(after_item) {
                        Ok((_, after_sep)) => {
                            proof {
                                sep.lemma_parse_suffix(after_item@);
                                lemma_suffix_trans(after_sep@, after_item@, rest@);
                            }
                            if is_shorter(after_sep, rest) {
                                proof {
                                    let tail = spec_sep_by(p, sep, after_sep@).0;
                                    assert(before + (seq![v] + tail) =~= before.push(v) + tail);
                                }
                                rest = after_sep;
                            } else {
                                proof {
                                    assert(items.deep_view() =~= before + seq![v]);
                                }
                                return Ok((items, after_item));
                            }
                        },
                        Err(_) => {
                            proof {
                                assert(items.deep_view() =~= before + seq![v]);
                            }
                            return Ok((items, after_item));
                        },
                    }
                },
                Err(_) => {
                    proof {
                        assert(before + Seq::empty() =~= before);
                    }
                    return Ok((items, rest));
                },
            }
        }
    }
}

/// Parses `parser` items separated by `separator`; the separator is not consumed after the
/// last item.
pub fn sep_by<P, S>(separator: S, parser: P) -> (r: SepBy<P, S>) where P: Parser, S: Parser
    ensures
        r.parser == parser,
        r.separator == separator,
{
    SepBy { parser, separator }
}

} // verus!
