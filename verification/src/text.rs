//! The operations of `str` that the library uses and that have no
//! verified counterpart.

use vstd::prelude::*;

verus! {

/// The lower-case form that `str::to_lowercase` gives a text.
pub uninterp spec fn lowercase_of(text: Seq<char>) -> Seq<char>;

/// One text occurs in another.
pub open spec fn occurs_in(part: Seq<char>, text: Seq<char>) -> bool {
    exists|i: int|
        0 <= i && i + part.len() <= text.len() && #[trigger] text.subrange(i, i + part.len())
            == part
}

/// One text begins another.
pub open spec fn begins(part: Seq<char>, text: Seq<char>) -> bool {
    part.len() <= text.len() && text.subrange(0, part.len() as int) == part
}

/// `str::to_lowercase`: the text with each character replaced by its
/// lower-case mapping in Unicode.
#[verifier::external_body]
pub(crate) fn to_lowercase(text: &str) -> (lower: String)
    ensures
        lower@ == lowercase_of(text@),
{
    text.to_lowercase()
}

/// `str::contains` with a string as the pattern: whether the pattern is a
/// substring. Characters are encoded so that none begins inside another,
/// hence a match of bytes is a match of characters.
#[verifier::external_body]
pub(crate) fn contains(text: &str, part: &str) -> (found: bool)
    ensures
        found == occurs_in(part@, text@),
{
    text.contains(part)
}

/// `str::starts_with` with a string as the pattern: whether the pattern is
/// a prefix.
#[verifier::external_body]
pub(crate) fn starts_with(text: &str, part: &str) -> (found: bool)
    ensures
        found == begins(part@, text@),
{
    text.starts_with(part)
}

} // verus!
