//! The capitalised key names written back to `ModsDB.ini`: the INI reader folds
//! keys to lower case, and the saved file spells them as the game expects.
use vstd::prelude::*;

use crate::text::{append_str, chars_of, concat, copy_str, has_prefix, str_eq, string_of};
use crate::unicode::{char_is_numeric, char_uppercase, is_numeric, to_uppercase};

verus! {

/// Every character of `s` is numeric in the Unicode sense.
pub open spec fn all_numeric(s: Seq<char>) -> bool {
    forall|i: int| 0 <= i < s.len() ==> char_is_numeric(#[trigger] s[i])
}

/// `s` with its first character in upper case (the empty string is kept).
pub open spec fn capitalized(s: Seq<char>) -> Seq<char> {
    if s.len() > 0 {
        char_uppercase(s[0]) + s.drop_first()
    } else {
        s
    }
}

/// The name of a numbered key whose lower-case prefix has been cut off: `title`
/// followed by `Count` for the counter, by the number itself for a numbered
/// entry, or by the capitalised suffix otherwise.
pub open spec fn counted_name(suffix: Seq<char>, title: Seq<char>) -> Seq<char> {
    if suffix == "count"@ {
        title + "Count"@
    } else if all_numeric(suffix) {
        title + suffix
    } else {
        title + capitalized(suffix)
    }
}

/// How a key of the `[Main]` section is spelled in the saved file.
pub open spec fn main_key_name(k: Seq<char>) -> Seq<char> {
    if has_prefix(k, "activemod"@) {
        counted_name(k.subrange("activemod"@.len() as int, k.len() as int), "ActiveMod"@)
    } else if k == "manifestversion"@ {
        "ManifestVersion"@
    } else if k == "reverseloadorder"@ {
        "ReverseLoadOrder"@
    } else if k == "favoritemodcount"@ {
        "FavoriteModCount"@
    } else {
        capitalized(k)
    }
}

/// How a key of the `[Codes]` section is spelled in the saved file.
pub open spec fn code_key_name(k: Seq<char>) -> Seq<char> {
    if has_prefix(k, "code"@) {
        counted_name(k.subrange("code"@.len() as int, k.len() as int), "Code"@)
    } else {
        capitalized(k)
    }
}

/// Whether `v[lo..]` holds the same characters as `w`.
fn tail_eq(v: &Vec<char>, lo: usize, w: &Vec<char>) -> (r: bool)
    requires
        lo <= v.len(),
    ensures
        r == (v@.subrange(lo as int, v.len() as int) == w@),
{
    if v.len() - lo != w.len() {
        return false;
    }
    let mut i: usize = 0;
    while i < w.len()
        invariant
            lo <= v.len(),
            v.len() - lo == w.len(),
            i <= w.len(),
            forall|j: int| 0 <= j < i ==> v@[lo + j] == w@[j],
        decreases w.len() - i,
    {
        if v[lo + i] != w[i] {
            assert(v@.subrange(lo as int, v.len() as int)[i as int] != w@[i as int]);
            return false;
        }
        i = i + 1;
    }
    assert(v@.subrange(lo as int, v.len() as int) =~= w@);
    true
}

/// Whether every character of `v[lo..]` is numeric.
fn tail_numeric(v: &Vec<char>, lo: usize) -> (r: bool)
    requires
        lo <= v.len(),
    ensures
        r == all_numeric(v@.subrange(lo as int, v.len() as int)),
{
    let ghost t = v@.subrange(lo as int, v.len() as int);
    let mut i = lo;
    while i < v.len()
        invariant
            lo <= i <= v.len(),
            t == v@.subrange(lo as int, v.len() as int),
            forall|j: int| 0 <= j < i - lo ==> char_is_numeric(#[trigger] t[j]),
        decreases v.len() - i,
    {
        if !is_numeric(v[i]) {
            assert(t[i - lo] == v@[i as int]);
            return false;
        }
        i = i + 1;
    }
    true
}

/// `v[lo..]` with its first character in upper case.
fn capitalize_tail(v: &Vec<char>, lo: usize) -> (r: String)
    requires
        lo <= v.len(),
    ensures
        r@ == capitalized(v@.subrange(lo as int, v.len() as int)),
{
    let ghost t = v@.subrange(lo as int, v.len() as int);
    if lo == v.len() {
        return String::new();
    }
    let mut r = to_uppercase(v[lo]);
    let rest = string_of(v, lo + 1, v.len());
    append_str(&mut r, rest.as_str());
    assert(t.drop_first() =~= v@.subrange(lo + 1, v.len() as int));
    r
}

/// The name for a key whose prefix ends at `lo`, spelled with `title`.
fn counted_name_of(v: &Vec<char>, lo: usize, title: &str) -> (r: String)
    requires
        lo <= v.len(),
    ensures
        r@ == counted_name(v@.subrange(lo as int, v.len() as int), title@),
{
    let count = chars_of("count");
    if tail_eq(v, lo, &count) {
        concat(title, "Count")
    } else if tail_numeric(v, lo) {
        let suffix = string_of(v, lo, v.len());
        concat(title, suffix.as_str())
    } else {
        let tail = capitalize_tail(v, lo);
        concat(title, tail.as_str())
    }
}

/// How a key of the `[Main]` section is spelled in the saved file.
pub fn format_main_key(k: &str) -> (r: String)
    ensures
        r@ == main_key_name(k@),
{
    let v = chars_of(k);
    let prefix = chars_of("activemod");
    if crate::text::starts_with(k, "activemod") {
        counted_name_of(&v, prefix.len(), "ActiveMod")
    } else if str_eq(k, "manifestversion") {
        copy_str("ManifestVersion")
    } else if str_eq(k, "reverseloadorder") {
        copy_str("ReverseLoadOrder")
    } else if str_eq(k, "favoritemodcount") {
        copy_str("FavoriteModCount")
    } else {
        assert(v@.subrange(0, v.len() as int) =~= v@);
        capitalize_tail(&v, 0)
    }
}

/// How a key of the `[Codes]` section is spelled in the saved file.
pub fn format_code_key(k: &str) -> (r: String)
    ensures
        r@ == code_key_name(k@),
{
    let v = chars_of(k);
    let prefix = chars_of("code");
    if crate::text::starts_with(k, "code") {
        counted_name_of(&v, prefix.len(), "Code")
    } else {
        assert(v@.subrange(0, v.len() as int) =~= v@);
        capitalize_tail(&v, 0)
    }
}

} // verus!
