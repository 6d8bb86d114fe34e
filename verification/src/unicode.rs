//! Unicode character properties that std computes from its own tables.
use vstd::prelude::*;

verus! {

/// An ASCII character.
pub open spec fn is_ascii_char(c: char) -> bool {
    (c as u32) < 128
}

/// The ASCII upper-case form of `c`: `a`..`z` are shifted, every other character is kept.
pub open spec fn ascii_upper(c: char) -> char {
    if 'a' <= c && c <= 'z' {
        ((c as u32) - 32) as char
    } else {
        c
    }
}

/// The ASCII lower-case form of `c`: `A`..`Z` are shifted, every other character is kept.
pub open spec fn ascii_lower(c: char) -> char {
    if 'A' <= c && c <= 'Z' {
        ((c as u32) + 32) as char
    } else {
        c
    }
}

/// Every character of `s` is ASCII.
pub open spec fn all_ascii(s: Seq<char>) -> bool {
    forall|i: int| 0 <= i < s.len() ==> is_ascii_char(#[trigger] s[i])
}

/// What `char::is_numeric` returns for `c`: whether `c` belongs to one of the
/// Unicode general categories for numbers.
pub uninterp spec fn char_is_numeric(c: char) -> bool;

/// What `char::to_uppercase` yields for `c`, collected into a string.
pub uninterp spec fn char_uppercase(c: char) -> Seq<char>;

/// What `str::to_lowercase` returns for a string.
pub uninterp spec fn str_lowercase(s: Seq<char>) -> Seq<char>;

/// `char::is_numeric`. The contract says that the result is the named Unicode
/// property of `c`, and that the ASCII digits `0`..`9` are numeric (they are in
/// the category Nd); it states nothing else of the Unicode tables.
#[verifier::external_body]
pub(crate) fn is_numeric(c: char) -> (r: bool)
    ensures
        r == char_is_numeric(c),
        '0' <= c <= '9' ==> r,
{
    c.is_numeric()
}

/// `char::to_uppercase`, collected into a `String`. The contract says that the
/// result is the named upper-case mapping of `c`, and that an ASCII character
/// maps to its single ASCII upper-case form (ASCII characters other than
/// `a`..`z` have no upper-case mapping, so the character itself comes back).
#[verifier::external_body]
pub(crate) fn to_uppercase(c: char) -> (r: String)
    ensures
        r@ == char_uppercase(c),
        is_ascii_char(c) ==> r@ == seq![ascii_upper(c)],
{
    c.to_uppercase().collect::<String>()
}

/// `str::to_lowercase`. The contract says that the result is the named
/// lower-case mapping of `s`, and that an all-ASCII string maps character by
/// character to its ASCII lower-case form.
#[verifier::external_body]
pub(crate) fn to_lowercase(s: &str) -> (r: String)
    ensures
        r@ == str_lowercase(s@),
        all_ascii(s@) ==> r@ == s@.map_values(|c: char| ascii_lower(c)),
{
    s.to_lowercase()
}

} // verus!
