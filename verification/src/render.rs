//! The text of a saved `ModsDB.ini`: the `[Main]`, `[Mods]` and `[Codes]`
//! sections, each key spelled as the game expects, one `key=value` line per
//! key that has a value, and a blank line after each section.
use vstd::prelude::*;

use crate::ini::{doc_section, doc_wf, find_key, lemma_doc_section_absent, lemma_doc_section_at, PairSeq, DocSeq};
use crate::keys::{code_key_name, format_code_key, format_main_key, main_key_name};
use crate::text::{append_str, push_char};

verus! {

/// How the keys of a section are spelled when saved.
#[derive(Clone, Copy, PartialEq, Eq, Structural)]
pub enum KeyStyle {
    /// The capitalised names of `[Main]`.
    Main,
    /// Keys as they are (mod ids).
    Plain,
    /// The capitalised names of `[Codes]`.
    Codes,
}

/// The saved spelling of key `k` in a section of the given style.
pub open spec fn styled_key(style: KeyStyle, k: Seq<char>) -> Seq<char> {
    match style {
        KeyStyle::Main => main_key_name(k),
        KeyStyle::Plain => k,
        KeyStyle::Codes => code_key_name(k),
    }
}

/// The `key=value` lines of a section, in the order of its pairs; a key without
/// a value gives no line.
pub open spec fn section_lines(pairs: PairSeq, style: KeyStyle) -> Seq<char>
    decreases pairs.len(),
{
    if pairs.len() == 0 {
        Seq::empty()
    } else {
        section_lines(pairs.drop_last(), style) + match pairs.last().1 {
            Some(v) => styled_key(style, pairs.last().0) + seq!['='] + v + seq!['\n'],
            None => Seq::empty(),
        }
    }
}

/// A section's header line, its lines and a blank line, where the document has
/// the section; nothing otherwise.
pub open spec fn section_block(d: DocSeq, name: Seq<char>, header: Seq<char>, style: KeyStyle) -> Seq<
    char,
> {
    match doc_section(d, name) {
        Some(p) => header + seq!['\n'] + section_lines(p, style) + seq!['\n'],
        None => Seq::empty(),
    }
}

/// The saved text of a document: `[Main]`, `[Mods]` and `[Codes]`, in that
/// order; other sections are not written.
pub open spec fn rendered(d: DocSeq) -> Seq<char> {
    section_block(d, "main"@, "[Main]"@, KeyStyle::Main) + section_block(
        d,
        "mods"@,
        "[Mods]"@,
        KeyStyle::Plain,
    ) + section_block(d, "codes"@, "[Codes]"@, KeyStyle::Codes)
}

/// The saved spelling of key `k`.
fn style_key(style: KeyStyle, k: &str) -> (r: String)
    ensures
        r@ == styled_key(style, k@),
{
    match style {
        KeyStyle::Main => format_main_key(k),
        KeyStyle::Plain => crate::text::copy_str(k),
        KeyStyle::Codes => format_code_key(k),
    }
}

/// Appends the block of section `name` of `doc` to `out`.
fn append_block(
    out: &mut String,
    doc: &Vec<(String, Vec<(String, Option<String>)>)>,
    name: &str,
    header: &str,
    style: KeyStyle,
)
    requires
        doc_wf(doc.deep_view()),
    ensures
        final(out)@ == old(out)@ + section_block(doc.deep_view(), name@, header@, style),
{
    let ghost d = doc.deep_view();
    let si = match find_key(doc, name) {
        Some(si) => si,
        None => {
            proof {
                lemma_doc_section_absent(d, name@);
            }
            assert(out@ =~= old(out)@ + Seq::<char>::empty());
            return ;
        },
    };
    proof {
        lemma_doc_section_at(d, si as int);
    }
    let pairs = &doc[si].1;
    let ghost p = pairs.deep_view();
    assert(p == d[si as int].1);
    append_str(out, header);
    push_char(out, '\n');
    let ghost start = out@;
    let mut i: usize = 0;
    while i < pairs.len()
        invariant
            i <= pairs.len(),
            p == pairs.deep_view(),
            out@ == start + section_lines(p.subrange(0, i as int), style),
        decreases pairs.len() - i,
    {
        let ghost pre = p.subrange(0, i as int);
        assert(p.subrange(0, i + 1).drop_last() =~= pre);
        assert(p.subrange(0, i + 1).last() == p[i as int]);
        let ghost before = out@;
        match &pairs[i].1 {
            Some(v) => {
                let key = style_key(style, pairs[i].0.as_str());
                append_str(out, key.as_str());
                push_char(out, '=');
                append_str(out, v.as_str());
                push_char(out, '\n');
                assert(out@ =~= before + (styled_key(style, p[i as int].0) + seq!['='] + v@ + seq![
                    '\n',
                ]));
            },
            None => {
                assert(out@ =~= before + Seq::<char>::empty());
            },
        }
        i = i + 1;
    }
    assert(p.subrange(0, p.len() as int) =~= p);
    push_char(out, '\n');
    assert(out@ =~= old(out)@ + (header@ + seq!['\n'] + section_lines(p, style) + seq!['\n']));
}

/// The saved text of a document given as sections.
pub fn render_sections(doc: &Vec<(String, Vec<(String, Option<String>)>)>) -> (r: String)
    requires
        doc_wf(doc.deep_view()),
    ensures
        r@ == rendered(doc.deep_view()),
{
    let mut out = String::new();
    append_block(&mut out, doc, "main", "[Main]", KeyStyle::Main);
    append_block(&mut out, doc, "mods", "[Mods]", KeyStyle::Plain);
    append_block(&mut out, doc, "codes", "[Codes]", KeyStyle::Codes);
    assert(out@ =~= rendered(doc.deep_view()));
    out
}

} // verus!
