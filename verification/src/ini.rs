//! The INI document of `configparser`, seen as a map from section names to maps
//! from keys to optional values, and the calls that the library makes into it.
use configparser::ini::Ini;
use vstd::prelude::*;

use crate::unicode::{all_ascii, str_lowercase};

verus! {

/// The configuration object of `configparser`.
#[verifier::external_type_specification]
#[verifier::external_body]
pub struct ExIni(Ini);

/// What an INI document holds: for each section name, the keys of the section
/// and their optional values.
pub type IniMap = Map<Seq<char>, Map<Seq<char>, Option<Seq<char>>>>;

/// A section as a sequence of (key, optional value) pairs, in the order a map
/// walk gave them.
pub type PairSeq = Seq<(Seq<char>, Option<Seq<char>>)>;

/// A document as a sequence of (section name, pairs).
pub type DocSeq = Seq<(Seq<char>, PairSeq)>;

/// The sections, keys and values that `cfg` holds.
pub uninterp spec fn ini_contents(cfg: Ini) -> IniMap;

/// The configuration has the settings that `Ini::new` gives (not case
/// sensitive, default delimiters and comment symbols, no multiline values, no
/// cascading defaults, `default` as the default section).
pub uninterp spec fn ini_default(cfg: Ini) -> bool;

/// What `Ini::read` makes of `text` for a configuration with the settings of
/// `Ini::new`: the parsed document, or the error message.
pub uninterp spec fn ini_read_result(text: Seq<char>) -> Result<IniMap, Seq<char>>;

/// No character of `s` is outside ASCII or an ASCII upper-case letter.
pub open spec fn ascii_folded(s: Seq<char>) -> bool {
    all_ascii(s) && forall|i: int| 0 <= i < s.len() ==> !('A' <= #[trigger] s[i] && s[i] <= 'Z')
}

/// How an `Ini` with the default (case-insensitive) settings folds a section name or a key before it looks
/// it up: text that is already lower-case ASCII is kept, other text goes through
/// `str::to_lowercase`.
pub open spec fn ini_fold(s: Seq<char>) -> Seq<char> {
    if ascii_folded(s) {
        s
    } else {
        str_lowercase(s)
    }
}

/// The document after `key` of `section` is set to `value`; a missing section is created.
pub open spec fn ini_update(
    c: IniMap,
    section: Seq<char>,
    key: Seq<char>,
    value: Option<Seq<char>>,
) -> IniMap {
    if c.contains_key(section) {
        c.insert(section, c[section].insert(key, value))
    } else {
        c.insert(section, Map::empty().insert(key, value))
    }
}

/// The document after `key` of `section` is removed; nothing changes where the
/// section is missing.
pub open spec fn ini_remove(c: IniMap, section: Seq<char>, key: Seq<char>) -> IniMap {
    if c.contains_key(section) {
        c.insert(section, c[section].remove(key))
    } else {
        c
    }
}

/// The value of `key` in a section, with a key that has no value read as missing.
pub open spec fn section_value(m: Map<Seq<char>, Option<Seq<char>>>, key: Seq<char>) -> Option<
    Seq<char>,
> {
    if m.contains_key(key) {
        m[key]
    } else {
        None
    }
}

/// The value of `key` in `section`, with a missing section, a missing key and a
/// key without value all read as `None`.
pub open spec fn ini_value(c: IniMap, section: Seq<char>, key: Seq<char>) -> Option<Seq<char>> {
    if c.contains_key(section) {
        section_value(c[section], key)
    } else {
        None
    }
}

/// The map that a sequence of (key, value) pairs denotes; a later pair wins.
pub open spec fn pairs_map<V>(s: Seq<(Seq<char>, V)>) -> Map<Seq<char>, V>
    decreases s.len(),
{
    if s.len() == 0 {
        Map::empty()
    } else {
        pairs_map(s.drop_last()).insert(s.last().0, s.last().1)
    }
}

/// No key occurs twice.
pub open spec fn unique_keys<V>(s: Seq<(Seq<char>, V)>) -> bool {
    forall|i: int, j: int|
        0 <= i < s.len() && 0 <= j < s.len() && i != j ==> #[trigger] s[i].0 != #[trigger] s[j].0
}

/// Each section of `d` with its pairs turned into a map.
pub open spec fn doc_maps(d: DocSeq) -> Seq<(Seq<char>, Map<Seq<char>, Option<Seq<char>>>)> {
    d.map_values(|e: (Seq<char>, PairSeq)| (e.0, pairs_map(e.1)))
}

/// The document that a sequence of sections denotes.
pub open spec fn doc_contents(d: DocSeq) -> IniMap {
    pairs_map(doc_maps(d))
}

/// No section name occurs twice, and no key occurs twice in a section.
pub open spec fn doc_wf(d: DocSeq) -> bool {
    &&& unique_keys(d)
    &&& forall|i: int| 0 <= i < d.len() ==> unique_keys(#[trigger] d[i].1)
}

/// The pairs of `d` under `name`, if `d` has such a section.
pub open spec fn doc_section(d: DocSeq, name: Seq<char>) -> Option<PairSeq> {
    if pairs_map(d).contains_key(name) {
        Some(pairs_map(d)[name])
    } else {
        None
    }
}

/// With unique keys, the map holds exactly the pairs of the sequence.
pub proof fn lemma_pairs_map<V>(s: Seq<(Seq<char>, V)>)
    requires
        unique_keys(s),
    ensures
        forall|i: int|
            0 <= i < s.len() ==> #[trigger] pairs_map(s).contains_key(s[i].0) && pairs_map(s)[s[i].0]
                == s[i].1,
        forall|k: Seq<char>|
            #[trigger] pairs_map(s).contains_key(k) ==> exists|i: int| 0 <= i < s.len() && s[i].0 == k,
    decreases s.len(),
{
    if s.len() > 0 {
        let t = s.drop_last();
        assert(pairs_map(s) == pairs_map(t).insert(s.last().0, s.last().1));
        assert(unique_keys(t)) by {
            assert forall|i: int, j: int|
                0 <= i < t.len() && 0 <= j < t.len() && i != j implies #[trigger] t[i].0
                != #[trigger] t[j].0 by {
                assert(t[i] == s[i] && t[j] == s[j]);
            }
        }
        lemma_pairs_map(t);
        assert forall|i: int| 0 <= i < s.len() implies #[trigger] pairs_map(s).contains_key(
            s[i].0,
        ) && pairs_map(s)[s[i].0] == s[i].1 by {
            if i < s.len() - 1 {
                assert(t[i] == s[i]);
                assert(s[i].0 != s[s.len() - 1].0);
            }
        }
        assert forall|k: Seq<char>| #[trigger]
            pairs_map(s).contains_key(k) implies exists|i: int| 0 <= i < s.len() && s[i].0 == k by {
            if k != s.last().0 {
                assert(pairs_map(t).contains_key(k));
                let i = choose|i: int| 0 <= i < t.len() && t[i].0 == k;
                assert(s[i] == t[i]);
            } else {
                assert(s[s.len() - 1].0 == k);
            }
        }
    }
}

/// The section of a well-formed document, found at a position.
pub proof fn lemma_doc_section_at(d: DocSeq, i: int)
    requires
        doc_wf(d),
        0 <= i < d.len(),
    ensures
        doc_section(d, d[i].0) == Some(d[i].1),
        doc_contents(d).contains_key(d[i].0),
        doc_contents(d)[d[i].0] == pairs_map(d[i].1),
{
    lemma_pairs_map(d);
    let m = doc_maps(d);
    assert(unique_keys(m)) by {
        assert forall|a: int, b: int|
            0 <= a < m.len() && 0 <= b < m.len() && a != b implies #[trigger] m[a].0
            != #[trigger] m[b].0 by {
            assert(d[a].0 != d[b].0);
        }
    }
    lemma_pairs_map(m);
    assert(m[i] == (d[i].0, pairs_map(d[i].1)));
    assert(pairs_map(m).contains_key(m[i].0));
    assert(pairs_map(d).contains_key(d[i].0));
}

/// A well-formed document has no section that does not occur in its sequence.
pub proof fn lemma_doc_section_absent(d: DocSeq, name: Seq<char>)
    requires
        doc_wf(d),
        forall|i: int| 0 <= i < d.len() ==> (#[trigger] d[i]).0 != name,
    ensures
        doc_section(d, name) is None,
        !doc_contents(d).contains_key(name),
{
    lemma_pairs_map(d);
    let m = doc_maps(d);
    assert(unique_keys(m)) by {
        assert forall|a: int, b: int|
            0 <= a < m.len() && 0 <= b < m.len() && a != b implies #[trigger] m[a].0
            != #[trigger] m[b].0 by {
            assert(d[a].0 != d[b].0);
        }
    }
    lemma_pairs_map(m);
    if doc_contents(d).contains_key(name) {
        let i = choose|i: int| 0 <= i < m.len() && m[i].0 == name;
        assert(d[i].0 == name);
    }
}

/// `Ini::new`: an empty configuration with the default settings (not case
/// sensitive, `=` and `:` as delimiters, `;` and `#` as comment symbols, no
/// multiline values, no cascading to the `default` section).
#[verifier::external_body]
pub(crate) fn ini_new() -> (cfg: Ini)
    ensures
        ini_contents(cfg) == IniMap::empty(),
        ini_default(cfg),
{
    Ini::new()
}

/// `Ini::read`: the settings are left as they were (only the map is assigned).
/// For a configuration with the default settings, on success it holds the
/// parsed document (the named result of parsing `text`); on failure the error
/// message is the named one and the document is left as it was (the map is
/// assigned only after parsing succeeded). The parser is not restated here, and
/// nothing is stated of other settings.
#[verifier::external_body]
pub(crate) fn ini_read(cfg: &mut Ini, text: String) -> (r: Result<(), String>)
    ensures
        ini_default(*final(cfg)) == ini_default(*old(cfg)),
        ini_default(*old(cfg)) ==> match ini_read_result(text@) {
            Ok(m) => r is Ok && ini_contents(*final(cfg)) == m,
            Err(e) => r matches Err(msg) && msg@ == e && ini_contents(*final(cfg)) == ini_contents(
                *old(cfg),
            ),
        },
{
    match cfg.read(text) {
        Ok(_) => Ok(()),
        Err(e) => Err(e),
    }
}

/// `Ini::get`: for a configuration with the default settings, the value of the
/// folded key in the folded section, with a key that has no value read as
/// missing (defaults are not cascaded). Nothing is stated of other settings.
#[verifier::external_body]
pub(crate) fn ini_get(cfg: &Ini, section: &str, key: &str) -> (r: Option<String>)
    ensures
        ini_default(*cfg) ==> r.deep_view() == ini_value(
            ini_contents(*cfg),
            ini_fold(section@),
            ini_fold(key@),
        ),
{
    cfg.get(section, key)
}

/// `Ini::set`: the settings are left as they were. For a configuration with the
/// default settings, the folded key of the folded section now holds `value`; a
/// missing section is created. Nothing is stated of other settings.
#[verifier::external_body]
pub(crate) fn ini_set(cfg: &mut Ini, section: &str, key: &str, value: Option<String>)
    ensures
        ini_default(*final(cfg)) == ini_default(*old(cfg)),
        ini_default(*old(cfg)) ==> ini_contents(*final(cfg)) == ini_update(
            ini_contents(*old(cfg)),
            ini_fold(section@),
            ini_fold(key@),
            value.deep_view(),
        ),
{
    cfg.set(section, key, value);
}

/// `Ini::remove_key`: the settings are left as they were. For a configuration
/// with the default settings, the folded key is gone from the folded section,
/// if that section exists. Nothing is stated of other settings.
#[verifier::external_body]
pub(crate) fn ini_remove_key(cfg: &mut Ini, section: &str, key: &str)
    ensures
        ini_default(*final(cfg)) == ini_default(*old(cfg)),
        ini_default(*old(cfg)) ==> ini_contents(*final(cfg)) == ini_remove(
            ini_contents(*old(cfg)),
            ini_fold(section@),
            ini_fold(key@),
        ),
{
    cfg.remove_key(section, key);
}

/// `Ini::get_map_ref`, with the nested map copied out section by section in the
/// order that its walk gives. That order is not stated (the map is a
/// `HashMap`); the contract says that the sequence denotes the document and
/// that no section name, and no key within a section, occurs twice.
#[verifier::external_body]
pub(crate) fn ini_sections(cfg: &Ini) -> (r: Vec<(String, Vec<(String, Option<String>)>)>)
    ensures
        doc_contents(r.deep_view()) == ini_contents(*cfg),
        doc_wf(r.deep_view()),
{
    cfg.get_map_ref().iter().map(
        |(s, m)| (s.clone(), m.iter().map(|(k, v)| (k.clone(), v.clone())).collect()),
    ).collect()
}

/// The position of the pair whose key is `name`.
pub fn find_key<V: DeepView>(v: &Vec<(String, V)>, name: &str) -> (r: Option<usize>)
    ensures
        match r {
            Some(i) => i < v.len() && v.deep_view()[i as int].0 == name@,
            None => forall|i: int| 0 <= i < v.len() ==> (#[trigger] v.deep_view()[i]).0 != name@,
        },
{
    let mut i: usize = 0;
    while i < v.len()
        invariant
            i <= v.len(),
            forall|j: int| 0 <= j < i ==> (#[trigger] v.deep_view()[j]).0 != name@,
        decreases v.len() - i,
    {
        assert(v.deep_view()[i as int].0 == v@[i as int].0@);
        if crate::text::str_eq(v[i].0.as_str(), name) {
            return Some(i);
        }
        i = i + 1;
    }
    None
}

} // verus!
