//! Parser combinators over text.
//!
//! A parser consumes a prefix of a string and yields a value with the rest, or fails with a
//! `ParserError` and consumes nothing. Each parser states what it yields as `spec_parse`, a
//! function on the sequence of codepoints, and `parse` is proved to compute it.

pub mod chars;
pub mod error;
pub mod laws;
pub mod many;
pub mod map;
pub mod number;
pub mod or;
pub mod parser;
pub mod replicate;
pub mod satisfy;
pub mod separate;
pub mod sequence;
pub mod string;
pub mod text;

pub use chars::CharPredicate;
pub use error::ParserError;
pub use many::{many, many1, Many, Many1};
pub use map::{Mapped, Mapping};
pub use number::{digit, integer};
pub use or::{or, Or};
pub use parser::Parser;
pub use replicate::{replicate, Replicate};
pub use satisfy::{satisfy, Satisfy};
pub use separate::{sep_by, SepBy};
pub use sequence::{sequence2, Sequence2};
pub use string::{alphanumeric, char1, letter, lower, newline, string, upper, whitespace, Str};
