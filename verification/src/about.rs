//! Text shown by the user interface: the renderer label, the lines of the
//! About window, and the checks on the name of an imported archive.
use vstd::prelude::*;

use crate::text::{
    append_str, chars_of, concat, contains, contains_sub, copy_str, decimal, decimal_string,
    push_char, string_of,
};
use crate::laws::law_zip_stem_shape;
use crate::unicode::{str_lowercase, to_lowercase};

verus! {

/// The renderer label: `GLES` for an OpenGL ES context, `GL` otherwise.
pub open spec fn renderer_name(gl_version: Seq<char>) -> Seq<char> {
    if contains_sub(gl_version, "OpenGL ES"@) {
        "GLES"@
    } else {
        "GL"@
    }
}

/// The renderer label for the version string that the GL context reports.
pub fn renderer_label(gl_version: &str) -> (r: &'static str)
    ensures
        r@ == renderer_name(gl_version@),
        (exists|i: int|
            0 <= i && i + "OpenGL ES"@.len() <= gl_version@.len() && #[trigger] gl_version@.subrange(
                i,
                i + "OpenGL ES"@.len(),
            ) == "OpenGL ES"@) ==> r@ == "GLES"@,
        !(exists|i: int|
            0 <= i && i + "OpenGL ES"@.len() <= gl_version@.len() && #[trigger] gl_version@.subrange(
                i,
                i + "OpenGL ES"@.len(),
            ) == "OpenGL ES"@) ==> r@ == "GL"@,
{
    if contains(gl_version, "OpenGL ES") {
        "GLES"
    } else {
        "GL"
    }
}

/// The archive extension.
pub open spec fn zip_ext() -> Seq<char> {
    seq!['.', 'z', 'i', 'p']
}

/// `s` ends with `suffix`.
pub open spec fn has_suffix(s: Seq<char>, suffix: Seq<char>) -> bool {
    suffix.len() <= s.len() && s.subrange(s.len() - suffix.len(), s.len() as int) == suffix
}

/// A file name that, in lower case, ends with `.zip`.
pub open spec fn is_zip_name(name: Seq<char>) -> bool {
    has_suffix(str_lowercase(name), zip_ext())
}

/// `s` with every trailing `.zip` removed (`str::trim_end_matches(".zip")`).
pub open spec fn zip_stem_of(s: Seq<char>) -> Seq<char>
    decreases s.len(),
{
    if has_suffix(s, zip_ext()) {
        zip_stem_of(s.subrange(0, s.len() - 4))
    } else {
        s
    }
}

/// Whether `v` ends with `.zip`.
fn ends_with_zip(v: &Vec<char>, len: usize) -> (r: bool)
    requires
        len <= v.len(),
    ensures
        r == has_suffix(v@.subrange(0, len as int), zip_ext()),
{
    let ghost s = v@.subrange(0, len as int);
    if len < 4 {
        return false;
    }
    let r = v[len - 4] == '.' && v[len - 3] == 'z' && v[len - 2] == 'i' && v[len - 1] == 'p';
    assert(s.subrange(s.len() - 4, s.len() as int) =~= seq![v[len - 4], v[len - 3], v[len - 2], v[len - 1]]);
    r
}

/// Whether a picked file name names a zip archive (compared in lower case).
pub fn has_zip_extension(name: &str) -> (r: bool)
    ensures
        r == is_zip_name(name@),
{
    let lower = to_lowercase(name);
    let v = chars_of(lower.as_str());
    assert(v@.subrange(0, v.len() as int) =~= v@);
    ends_with_zip(&v, v.len())
}

/// The archive name without its trailing `.zip` extensions.
pub fn zip_stem(name: &str) -> (r: String)
    ensures
        r@ == zip_stem_of(name@),
        r@.len() <= name@.len(),
        name@.subrange(0, r@.len() as int) == r@,
        (name@.len() - r@.len()) % 4 == 0,
        forall|j: int|
            r@.len() <= j < name@.len() ==> #[trigger] name@[j] == seq!['.', 'z', 'i', 'p'][(j
                - r@.len()) % 4],
        !(r@.len() >= 4 && r@.subrange(r@.len() - 4, r@.len() as int) == seq!['.', 'z', 'i', 'p']),
{
    proof {
        law_zip_stem_shape(name@);
    }
    let v = chars_of(name);
    let mut len = v.len();
    assert(v@.subrange(0, len as int) =~= name@);
    while ends_with_zip(&v, len)
        invariant
            len <= v.len(),
            zip_stem_of(name@) == zip_stem_of(v@.subrange(0, len as int)),
        decreases len,
    {
        assert(v@.subrange(0, len as int).subrange(0, len - 4) =~= v@.subrange(0, len - 4));
        len = len - 4;
    }
    string_of(&v, 0, len)
}

/// What `{:?}` writes for a string: the string between double quotes, with
/// special characters escaped.
pub uninterp spec fn str_debug(s: Seq<char>) -> Seq<char>;

/// A printable ASCII character that `{:?}` writes as it is.
pub open spec fn debug_plain(c: char) -> bool {
    ' ' <= c && c <= '~' && c != '"' && c != '\\'
}

/// `format!("{:?}", s)`. The contract says that the result is the named Debug
/// form of `s`, and that a string of printable ASCII characters other than `"`
/// and `\` comes back between double quotes, unchanged; the escapes of other
/// characters are not stated.
#[verifier::external_body]
pub(crate) fn debug_str(s: &str) -> (r: String)
    ensures
        r@ == str_debug(s@),
        (forall|i: int| 0 <= i < s@.len() ==> debug_plain(#[trigger] s@[i])) ==> r@ == seq!['"'] + s@
            + seq!['"'],
{
    format!("{:?}", s)
}

/// A signed number in decimal, with a leading `-` when it is negative.
pub open spec fn signed_decimal(y: int) -> Seq<char> {
    if y < 0 {
        seq!['-'] + decimal((-y) as nat)
    } else {
        decimal(y as nat)
    }
}

/// `y.to_string()` for an `i32`.
pub fn i32_string(y: i32) -> (r: String)
    ensures
        r@ == signed_decimal(y as int),
{
    if y < 0 {
        let m: u32 = (-(y as i64)) as u32;
        let mut r = String::new();
        push_char(&mut r, '-');
        let d = decimal_string(m as usize);
        append_str(&mut r, d.as_str());
        assert(r@ =~= seq!['-'] + decimal((-(y as int)) as nat));
        r
    } else {
        decimal_string(y as u32 as usize)
    }
}

/// The lines of the About window.
pub open spec fn about_text(
    name: Seq<char>,
    version: Seq<char>,
    author: Seq<char>,
    platform: Seq<char>,
    renderer: Seq<char>,
    gl_version: Seq<char>,
    vendor: Seq<char>,
    year: int,
) -> Seq<Seq<char>> {
    seq![
        str_debug(name) + " Mod-Manager"@,
        "Version   : "@ + version,
        "Author    : "@ + author,
        "Platform  :  "@ + platform,
        "OpenGL info"@,
        "Renderer  :  "@ + renderer,
        "Version   :  "@ + gl_version,
        "Vendor    :  "@ + vendor,
        "Made with Rust, SDL2, ImGui & Glow."@,
        "(C) "@ + signed_decimal(year) + ", "@ + author + "."@,
    ]
}

/// The lines of the About window for the package `name`, `version` and
/// `author`, the platform, the renderer label, the GL version and vendor, and
/// the current year.
pub fn about_lines(
    name: &str,
    version: &str,
    author: &str,
    platform: &str,
    renderer: &str,
    gl_version: &str,
    vendor: &str,
    year: i32,
) -> (r: Vec<String>)
    ensures
        r.deep_view() == about_text(
            name@,
            version@,
            author@,
            platform@,
            renderer@,
            gl_version@,
            vendor@,
            year as int,
        ),
{
    let mut lines: Vec<String> = Vec::new();
    let title = debug_str(name);
    lines.push(concat(title.as_str(), " Mod-Manager"));
    lines.push(concat("Version   : ", version));
    lines.push(concat("Author    : ", author));
    lines.push(concat("Platform  :  ", platform));
    lines.push(copy_str("OpenGL info"));
    lines.push(concat("Renderer  :  ", renderer));
    lines.push(concat("Version   :  ", gl_version));
    lines.push(concat("Vendor    :  ", vendor));
    lines.push(copy_str("Made with Rust, SDL2, ImGui & Glow."));
    let y = i32_string(year);
    let mut last = concat("(C) ", y.as_str());
    append_str(&mut last, ", ");
    append_str(&mut last, author);
    append_str(&mut last, ".");
    lines.push(last);
    assert(lines.deep_view() =~= about_text(
        name@,
        version@,
        author@,
        platform@,
        renderer@,
        gl_version@,
        vendor@,
        year as int,
    ));
    lines
}

} // verus!
