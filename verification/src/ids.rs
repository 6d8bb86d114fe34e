//! Fresh identifiers for imported mods.
use vstd::prelude::*;

use crate::ini::{ascii_folded, ini_fold};

verus! {

/// A lower-case hexadecimal digit.
pub open spec fn is_hex_lower(c: char) -> bool {
    ('0' <= c && c <= '9') || ('a' <= c && c <= 'f')
}

/// A position of the hyphenated form that holds a hyphen.
pub open spec fn is_hyphen_pos(i: int) -> bool {
    i == 8 || i == 13 || i == 18 || i == 23
}

/// Text in the shape of a hyphenated lower-case version-4 UUID: 36 characters,
/// hyphens at positions 8, 13, 18 and 23, lower-case hexadecimal digits
/// elsewhere, the version digit `4` at position 14 and a variant digit `8`,
/// `9`, `a` or `b` at position 19.
pub open spec fn uuid_shaped(s: Seq<char>) -> bool {
    &&& s.len() == 36
    &&& forall|i: int|
        0 <= i < s.len() ==> if is_hyphen_pos(i) {
            #[trigger] s[i] == '-'
        } else {
            is_hex_lower(s[i])
        }
    &&& s[14] == '4'
    &&& (s[19] == '8' || s[19] == '9' || s[19] == 'a' || s[19] == 'b')
}

/// `Uuid::new_v4().to_string()`: a random UUID whose version bits are set to 4
/// and variant bits to `10`, written by its `Display` impl in the hyphenated
/// lower-case form. Which UUID comes back is chance and is not stated.
#[verifier::external_body]
pub(crate) fn new_uuid_string() -> (r: String)
    ensures
        uuid_shaped(r@),
{
    uuid::Uuid::new_v4().to_string()
}

/// A UUID-shaped id is kept as it is by the INI reader's case folding.
pub proof fn lemma_uuid_folded(s: Seq<char>)
    requires
        uuid_shaped(s),
    ensures
        ini_fold(s) == s,
{
    assert(ascii_folded(s)) by {
        assert forall|i: int| 0 <= i < s.len() implies crate::unicode::is_ascii_char(#[trigger] s[i]) by {
            if is_hyphen_pos(i) {
                assert(s[i] == '-');
            } else {
                assert(is_hex_lower(s[i]));
            }
        }
        assert forall|i: int| 0 <= i < s.len() implies !('A' <= #[trigger] s[i] && s[i] <= 'Z') by {
            if is_hyphen_pos(i) {
                assert(s[i] == '-');
            } else {
                assert(is_hex_lower(s[i]));
            }
        }
    }
}

} // verus!
