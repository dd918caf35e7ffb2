use vstd::prelude::*;

verus! {

/// The two ways a parse step can fail.
#[derive(Clone, Copy, Debug, PartialEq, Eq, Structural)]
pub enum ParserError {
    /// A codepoint was required but the input was exhausted.
    ParsePositionError,
    /// A codepoint was present but the active test rejected it.
    NotSatisfy,
}

} // verus!
