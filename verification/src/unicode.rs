//! What Unicode says of characters and text, as the standard library has it.

use vstd::prelude::*;

verus! {

/// The lowercase form of a text under Unicode's rules.
pub uninterp spec fn lowercase_of(text: Seq<char>) -> Seq<char>;

/// Whether a character is a letter or a number under Unicode's rules.
pub uninterp spec fn is_alphanumeric(c: char) -> bool;

/// Calls `str::to_lowercase`.
///
/// Trusted: the result depends on the text alone, so it is named
/// `lowercase_of`. Nothing more is claimed of it.
#[verifier::external_body]
pub(crate) fn to_lowercase(text: &str) -> (r: String)
    ensures
        r@ == lowercase_of(text@),
{
    text.to_lowercase()
}

/// Calls `char::is_alphanumeric`.
///
/// Trusted: the result depends on the character alone, so it is named
/// `is_alphanumeric`. Nothing more is claimed of it.
#[verifier::external_body]
pub(crate) fn char_is_alphanumeric(c: char) -> (r: bool)
    ensures
        r == is_alphanumeric(c),
{
    c.is_alphanumeric()
}

} // verus!
