//! Character classification through std's Unicode tables.
//!
//! Whether a character is alphabetic or numeric is a property of the
//! character alone, but its full statement is the Unicode character table;
//! the two classes are therefore named rather than spelled out, and the
//! library's contracts speak of the names.
use vstd::prelude::*;

verus! {

/// Whether a character is alphabetic in the Unicode sense: the result of
/// `char::is_alphabetic`.
pub uninterp spec fn alphabetic(c: char) -> bool;

/// Whether a character is numeric in the Unicode sense: the result of
/// `char::is_numeric`.
pub uninterp spec fn numeric(c: char) -> bool;

/// Relies on `char::is_alphabetic`: a lookup in the Unicode `Alphabetic`
/// table, a function of the character alone.
#[verifier::external_body]
pub(crate) fn char_is_alphabetic(c: char) -> (r: bool)
    ensures
        r == alphabetic(c),
{
    c.is_alphabetic()
}

/// Relies on `char::is_numeric`: a lookup in the Unicode numeric categories,
/// a function of the character alone.
#[verifier::external_body]
pub(crate) fn char_is_numeric(c: char) -> (r: bool)
    ensures
        r == numeric(c),
{
    c.is_numeric()
}

} // verus!
