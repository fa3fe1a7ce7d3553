//! Character- and string-level helpers that the pipeline builds on: the
//! Unicode alphanumeric test, Unicode lowercasing, and appending a single
//! character to a `String`.

use vstd::prelude::*;

verus! {

/// What `char::is_alphanumeric` returns for a character. The Unicode
/// classification depends on the character alone, so it is given a name here
/// rather than being restated.
pub uninterp spec fn is_alnum(c: char) -> bool;

/// Relies on char::is_alphanumeric: whether the character is a Unicode
/// letter or number. The result is named `is_alnum`.
#[verifier::external_body]
pub fn alnum(c: char) -> (r: bool)
    ensures
        r == is_alnum(c),
{
    c.is_alphanumeric()
}

/// What `str::to_lowercase` returns for a string. The Unicode lowercase
/// mapping depends on the characters alone, so it is given a name here
/// rather than being restated.
pub uninterp spec fn lower_of(s: Seq<char>) -> Seq<char>;

/// Relies on str::to_lowercase: the Unicode lowercase form of the string,
/// a function of the characters alone. The result is named `lower_of`.
#[verifier::external_body]
pub fn lowercase(s: &str) -> (r: String)
    ensures
        r@ == lower_of(s@),
{
    s.to_lowercase()
}

/// Relies on String::push: appends one character at the end of the string.
pub assume_specification[ String::push ](s: &mut String, c: char)
    ensures
        final(s)@ == old(s)@.push(c),
;

} // verus!
