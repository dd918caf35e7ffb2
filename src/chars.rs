use vstd::prelude::*;

verus! {

/// A test on a single codepoint, with its meaning as a spec function.
pub trait CharPredicate {
    /// The conditions under which `test` may run.
    spec fn wf(&self) -> bool;

    /// Whether `c` passes.
    spec fn holds(&self, c: char) -> bool;

    fn test(&self, c: char) -> (r: bool)
        requires
            self.wf(),
        ensures
            r == self.holds(c),
    ;
}

/// A closure is a predicate when it may be called on every codepoint and never gives two
/// answers for one.
impl<F: Fn(char) -> bool> CharPredicate for F {
    open spec fn wf(&self) -> bool {
        &&& forall|c: char| self.requires((c,))
        &&& forall|c: char| !(#[trigger] self.ensures((c,), true) && self.ensures((c,), false))
    }

    open spec fn holds(&self, c: char) -> bool {
        self.ensures((c,), true)
    }

    fn test(&self, c: char) -> (r: bool) {
        (self)(c)
    }
}

/// An ASCII decimal digit, `'0'` to `'9'`.
pub open spec fn is_decimal_digit(c: char) -> bool {
    '0' <= c && c <= '9'
}

/// Whether `c` has the Unicode `Alphabetic` property.
pub uninterp spec fn unicode_alphabetic(c: char) -> bool;

/// Whether `c` has the Unicode `Uppercase` property.
pub uninterp spec fn unicode_uppercase(c: char) -> bool;

/// Whether `c` has the Unicode `Lowercase` property.
pub uninterp spec fn unicode_lowercase(c: char) -> bool;

/// Whether `c` is alphabetic or numeric in the Unicode sense.
pub uninterp spec fn unicode_alphanumeric(c: char) -> bool;

/// Relies on `char::is_alphabetic`: the answer depends on `c` alone.
#[verifier::external_body]
fn is_alphabetic(c: char) -> (r: bool)
    ensures
        r == unicode_alphabetic(c),
{
    c.is_alphabetic()
}

/// Relies on `char::is_uppercase`: the answer depends on `c` alone.
#[verifier::external_body]
fn is_uppercase(c: char) -> (r: bool)
    ensures
        r == unicode_uppercase(c),
{
    c.is_uppercase()
}

/// Relies on `char::is_lowercase`: the answer depends on `c` alone.
#[verifier::external_body]
fn is_lowercase(c: char) -> (r: bool)
    ensures
        r == unicode_lowercase(c),
{
    c.is_lowercase()
}

/// Relies on `char::is_alphanumeric`: the answer depends on `c` alone.
#[verifier::external_body]
fn is_alphanumeric(c: char) -> (r: bool)
    ensures
        r == unicode_alphanumeric(c),
{
    c.is_alphanumeric()
}

/// Decimal digits `'0'` to `'9'`.
#[derive(Clone, Copy, Debug)]
pub struct Digit;

/// Alphabetic codepoints.
#[derive(Clone, Copy, Debug)]
pub struct Letter;

/// Uppercase codepoints.
#[derive(Clone, Copy, Debug)]
pub struct Upper;

/// Lowercase codepoints.
#[derive(Clone, Copy, Debug)]
pub struct Lower;

/// Alphabetic or numeric codepoints.
#[derive(Clone, Copy, Debug)]
pub struct Alphanumeric;

/// Exactly the given codepoint.
#[derive(Clone, Copy, Debug)]
pub struct Equals(pub char);

impl CharPredicate for Digit {
    open spec fn wf(&self) -> bool {
        true
    }

    open spec fn holds(&self, c: char) -> bool {
        is_decimal_digit(c)
    }

    fn test(&self, c: char) -> (r: bool) {
        '0' <= c && c <= '9'
    }
}

impl CharPredicate for Letter {
    open spec fn wf(&self) -> bool {
        true
    }

    open spec fn holds(&self, c: char) -> bool {
        unicode_alphabetic(c)
    }

    fn test(&self, c: char) -> (r: bool) {
        is_alphabetic(c)
    }
}

impl CharPredicate for Upper {
    open spec fn wf(&self) -> bool {
        true
    }

    open spec fn holds(&self, c: char) -> bool {
        unicode_uppercase(c)
    }

    fn test(&self, c: char) -> (r: bool) {
        is_uppercase(c)
    }
}

impl CharPredicate for Lower {
    open spec fn wf(&self) -> bool {
        true
    }

    open spec fn holds(&self, c: char) -> bool {
        unicode_lowercase(c)
    }

    fn test(&self, c: char) -> (r: bool) {
        is_lowercase(c)
    }
}

impl CharPredicate for Alphanumeric {
    open spec fn wf(&self) -> bool {
        true
    }

    open spec fn holds(&self, c: char) -> bool {
        unicode_alphanumeric(c)
    }

    fn test(&self, c: char) -> (r: bool) {
        is_alphanumeric(c)
    }
}

impl CharPredicate for Equals {
    open spec fn wf(&self) -> bool {
        true
    }

    open spec fn holds(&self, c: char) -> bool {
        c == self.0
    }

    fn test(&self, c: char) -> (r: bool) {
        c == self.0
    }
}

} // verus!
