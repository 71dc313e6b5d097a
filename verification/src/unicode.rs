//! The two character classes of the Unicode standard that decide how a
//! disambiguator in a move token is read.

use vstd::prelude::*;

verus! {

/// Whether a character has the Unicode property `Alphabetic`.
pub uninterp spec fn alphabetic(c: char) -> bool;

/// Whether a character belongs to one of the Unicode general categories
/// for numbers.
pub uninterp spec fn numeric(c: char) -> bool;

/// Calls `char::is_alphabetic` of the standard library.  The result is
/// taken on trust to be the character's Unicode property `Alphabetic`,
/// which depends on the character alone.
#[verifier::external_body]
pub(crate) fn is_alphabetic(c: char) -> (res: bool)
    ensures
        res == alphabetic(c),
{
    c.is_alphabetic()
}

/// Calls `char::is_numeric` of the standard library.  The result is taken
/// on trust to say whether the character's general category is one of the
/// number categories, which depends on the character alone.
#[verifier::external_body]
pub(crate) fn is_numeric(c: char) -> (res: bool)
    ensures
        res == numeric(c),
{
    c.is_numeric()
}

} // verus!
