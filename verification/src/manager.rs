//! The state of the mod manager: the open `ModsDB.ini`, its path, the active
//! mods, the enabled cheats and the installed mods, with the operations that
//! load, edit and save it.
use configparser::ini::Ini;
use vstd::prelude::*;

use crate::ids::{lemma_uuid_folded, new_uuid_string, uuid_shaped};
use crate::ini::{
    ascii_folded, doc_contents, doc_section, doc_wf, find_key, ini_contents, ini_default, ini_fold, ini_new,
    ini_read, ini_read_result, ini_remove_key, ini_sections, ini_set, ini_update,
    lemma_doc_section_absent, lemma_doc_section_at, lemma_pairs_map, pairs_map, unique_keys,
    IniMap, PairSeq,
};
use crate::load::{
    active_from_sections, cheats_from_sections, holds_str, insert_str, lemma_ascii_name_folded,
    lists_mod, loaded_active, loaded_cheats, mod_sources, mod_sources_of, mod_title, title_of,
};
use crate::render::{render_sections, rendered};
use crate::text::{
    concat, copy_str, decimal, decimal_string, has_prefix, lemma_decimal_digits,
    normalize_slashes, quote, quoted, slashes, starts_with, str_eq, trim_quotes,
};

verus! {

/// An installed mod as the mod list shows it.
pub struct ModEntry {
    /// The mod's key in `[Mods]`.
    pub id: String,
    /// The path of the mod's `mod.ini`, without quotes.
    pub path: String,
    /// The title from the mod's `mod.ini`, or `<NoTitle>`.
    pub title: String,
}

impl View for ModEntry {
    type V = (Seq<char>, Seq<char>, Seq<char>);

    open spec fn view(&self) -> (Seq<char>, Seq<char>, Seq<char>) {
        (self.id@, self.path@, self.title@)
    }
}

impl ModEntry {
    /// The label of the mod's checkbox: its title, `  :  `, and its id.
    pub fn label(&self) -> (r: String)
        ensures
            r@ == self.title@ + "  :  "@ + self.id@,
    {
        let mut r = concat(self.title.as_str(), "  :  ");
        crate::text::append_str(&mut r, self.id.as_str());
        r
    }
}

/// `k` is one of the keys that a list of `prefix`-numbered entries and its
/// counter `count_key` are stored under.
pub open spec fn is_list_key(k: Seq<char>, prefix: Seq<char>, count_key: Seq<char>) -> bool {
    has_prefix(k, prefix) || k == count_key
}

/// The document after every list key of section `sec` has been removed, each
/// by its case-folded name; nothing changes where the section is missing.
pub open spec fn purged(c: IniMap, sec: Seq<char>, prefix: Seq<char>, count_key: Seq<char>) -> IniMap {
    if c.contains_key(sec) {
        c.insert(
            sec,
            c[sec].remove_keys(
                Set::new(
                    |k: Seq<char>|
                        exists|k0: Seq<char>|
                            #![trigger ini_fold(k0)]
                            c[sec].contains_key(k0) && is_list_key(k0, prefix, count_key) && k
                                == ini_fold(k0),
                ),
            ),
        )
    } else {
        c
    }
}

/// The document after the first `n` items have been written to section `sec`
/// under the keys `prefix` + 0, `prefix` + 1, ..., each value between quotes.
pub open spec fn listed(c: IniMap, sec: Seq<char>, prefix: Seq<char>, items: Seq<Seq<char>>, n: nat) -> IniMap
    decreases n,
{
    if n == 0 {
        c
    } else {
        ini_update(
            listed(c, sec, prefix, items, (n - 1) as nat),
            sec,
            prefix + decimal((n - 1) as nat),
            Some(quoted(items[n - 1])),
        )
    }
}

/// The document that saving writes: the old active-mod and cheat lists are
/// removed, then the counts and the numbered, quoted entries of the current
/// lists are written to `[main]` and `[codes]`.
pub open spec fn saved(c: IniMap, active: Seq<Seq<char>>, cheats: Seq<Seq<char>>) -> IniMap {
    let c1 = purged(c, "main"@, "activemod"@, "activemodcount"@);
    let c2 = purged(c1, "codes"@, "code"@, "codecount"@);
    let c3 = listed(
        ini_update(c2, "main"@, "activemodcount"@, Some(decimal(active.len()))),
        "main"@,
        "activemod"@,
        active,
        active.len(),
    );
    listed(
        ini_update(c3, "codes"@, "codecount"@, Some(decimal(cheats.len()))),
        "codes"@,
        "code"@,
        cheats,
        cheats.len(),
    )
}

/// An ASCII prefix followed by a decimal number is kept by case folding.
pub proof fn lemma_numbered_key_folded(prefix: Seq<char>, n: nat)
    requires
        ascii_folded(prefix),
    ensures
        ini_fold(prefix + decimal(n)) == prefix + decimal(n),
{
    lemma_decimal_digits(n);
    let k = prefix + decimal(n);
    assert forall|i: int| 0 <= i < k.len() implies crate::unicode::is_ascii_char(#[trigger] k[i])
        && !('A' <= k[i] && k[i] <= 'Z') by {
        if i >= prefix.len() {
            assert(k[i] == decimal(n)[i - prefix.len()]);
            assert(crate::text::is_digit(decimal(n)[i - prefix.len()]));
        } else {
            assert(k[i] == prefix[i]);
        }
    }
}

/// The list prefixes and the fixed names of the database are lower-case ASCII
/// and are distinct section names.
pub proof fn lemma_list_names()
    ensures
        ascii_folded("activemod"@),
        ascii_folded("code"@),
        "main"@ != "codes"@,
        "main"@ != "mods"@,
        "codes"@ != "mods"@,
{
    reveal_strlit("activemod");
    reveal_strlit("code");
    reveal_strlit("main");
    reveal_strlit("codes");
    reveal_strlit("mods");
    assert("main"@.len() != "codes"@.len());
    assert("main"@[1] != "mods"@[1]);
    assert("codes"@.len() != "mods"@.len());
}

/// Removes from section `sec` every key listed by `pairs` (a snapshot of that
/// section) that is a list key.
fn purge_keys(
    cfg: &mut Ini,
    pairs: &Vec<(String, Option<String>)>,
    sec: &str,
    prefix: &str,
    count_key: &str,
)
    requires
        ini_default(*old(cfg)),
        ini_fold(sec@) == sec@,
        ini_contents(*old(cfg)).contains_key(sec@),
        unique_keys(pairs.deep_view()),
        ini_contents(*old(cfg))[sec@] == pairs_map(pairs.deep_view()),
    ensures
        ini_default(*final(cfg)),
        ini_contents(*final(cfg)) == purged(ini_contents(*old(cfg)), sec@, prefix@, count_key@),
{
    let ghost c = ini_contents(*cfg);
    let ghost m = c[sec@];
    let ghost p = pairs.deep_view();
    proof {
        lemma_pairs_map(p);
        let e = Set::new(
            |k: Seq<char>|
                exists|j: int|
                    0 <= j < 0 && is_list_key(p[j].0, prefix@, count_key@) && k == ini_fold(
                        #[trigger] p[j].0,
                    ),
        );
        assert(e =~= Set::empty());
        assert(m.remove_keys(e) =~= m);
        assert(c.insert(sec@, m) =~= c);
    }
    let mut i: usize = 0;
    while i < pairs.len()
        invariant
            i <= pairs.len(),
            p == pairs.deep_view(),
            m == pairs_map(p),
            ini_default(*cfg),
            ini_fold(sec@) == sec@,
            c.contains_key(sec@),
            m == c[sec@],
            ini_contents(*cfg) == c.insert(
                sec@,
                m.remove_keys(
                    Set::new(
                        |k: Seq<char>|
                            exists|j: int|
                                0 <= j < i && is_list_key(p[j].0, prefix@, count_key@) && k
                                    == ini_fold(#[trigger] p[j].0),
                    ),
                ),
            ),
        decreases pairs.len() - i,
    {
        let ghost before = Set::new(
            |k: Seq<char>|
                exists|j: int|
                    0 <= j < i && is_list_key(p[j].0, prefix@, count_key@) && k == ini_fold(
                        #[trigger] p[j].0,
                    ),
        );
        let ghost after = Set::new(
            |k: Seq<char>|
                exists|j: int|
                    0 <= j < i + 1 && is_list_key(p[j].0, prefix@, count_key@) && k == ini_fold(
                        #[trigger] p[j].0,
                    ),
        );
        let key = &pairs[i].0;
        assert(key@ == p[i as int].0);
        if starts_with(key.as_str(), prefix) || str_eq(key.as_str(), count_key) {
            ini_remove_key(cfg, sec, key.as_str());
            assert(after =~= before.insert(ini_fold(key@)));
            assert(m.remove_keys(before).remove(ini_fold(key@)) =~= m.remove_keys(after));
        } else {
            assert(after =~= before);
        }
        i = i + 1;
    }
    let ghost s1 = Set::new(
        |k: Seq<char>|
            exists|j: int|
                0 <= j < i && is_list_key(p[j].0, prefix@, count_key@) && k == ini_fold(
                    #[trigger] p[j].0,
                ),
    );
    let ghost s2 = Set::new(
        |k: Seq<char>|
            exists|k0: Seq<char>|
                #![trigger ini_fold(k0)]
                m.contains_key(k0) && is_list_key(k0, prefix@, count_key@) && k == ini_fold(k0),
    );
    assert(s1 =~= s2) by {
        assert forall|k: Seq<char>| #[trigger] s2.contains(k) implies s1.contains(k) by {
            let k0 = choose|k0: Seq<char>|
                #![trigger ini_fold(k0)]
                m.contains_key(k0) && is_list_key(k0, prefix@, count_key@) && k == ini_fold(k0);
            let j = choose|j: int| 0 <= j < p.len() && p[j].0 == k0;
            assert(ini_fold(p[j].0) == k);
        }
        assert forall|k: Seq<char>| #[trigger] s1.contains(k) implies s2.contains(k) by {
            let j = choose|j: int|
                0 <= j < i && is_list_key(p[j].0, prefix@, count_key@) && k == ini_fold(
                    #[trigger] p[j].0,
                );
            assert(m.contains_key(p[j].0));
        }
    }
}

/// Writes the count of `items` under `count_key` and each item, quoted, under
/// `prefix` + its position, all in section `sec`.
fn write_list(cfg: &mut Ini, sec: &str, count_key: &str, prefix: &str, items: &Vec<String>)
    requires
        ini_default(*old(cfg)),
        ini_fold(sec@) == sec@,
        ini_fold(count_key@) == count_key@,
        ascii_folded(prefix@),
    ensures
        ini_default(*final(cfg)),
        ini_contents(*final(cfg)) == listed(
            ini_update(
                ini_contents(*old(cfg)),
                sec@,
                count_key@,
                Some(decimal(items.deep_view().len())),
            ),
            sec@,
            prefix@,
            items.deep_view(),
            items.deep_view().len(),
        ),
{
    ini_set(cfg, sec, count_key, Some(decimal_string(items.len())));
    let ghost start = ini_contents(*cfg);
    let mut i: usize = 0;
    while i < items.len()
        invariant
            i <= items.len(),
            ini_default(*cfg),
            ini_fold(sec@) == sec@,
            ascii_folded(prefix@),
            ini_contents(*cfg) == listed(start, sec@, prefix@, items.deep_view(), i as nat),
        decreases items.len() - i,
    {
        let digits = decimal_string(i);
        let key = concat(prefix, digits.as_str());
        proof {
            lemma_numbered_key_folded(prefix@, i as nat);
        }
        assert(items.deep_view()[i as int] == items@[i as int]@);
        ini_set(cfg, sec, key.as_str(), Some(quote(items[i].as_str())));
        i = i + 1;
    }
}

/// Removes `s` from `v`, keeping the order of the other strings.
fn remove_str(v: &Vec<String>, s: &str) -> (r: Vec<String>)
    requires
        v.deep_view().no_duplicates(),
    ensures
        r.deep_view().no_duplicates(),
        r.deep_view().to_set() == v.deep_view().to_set().remove(s@),
{
    let mut out: Vec<String> = Vec::new();
    let mut i: usize = 0;
    while i < v.len()
        invariant
            i <= v.len(),
            v.deep_view().no_duplicates(),
            out.deep_view().no_duplicates(),
            out.deep_view().to_set() == v.deep_view().subrange(0, i as int).to_set().remove(s@),
        decreases v.len() - i,
    {
        let ghost pre = v.deep_view().subrange(0, i as int);
        let ghost next = v.deep_view().subrange(0, i + 1);
        assert(next =~= pre.push(v.deep_view()[i as int]));
        assert(next.to_set() =~= pre.to_set().insert(v.deep_view()[i as int])) by {
            assert forall|x: Seq<char>| next.contains(x) <==> pre.contains(x) || x == v.deep_view()[i as int] by {
                if next.contains(x) {
                    let j = choose|j: int| 0 <= j < next.len() && next[j] == x;
                    if j < pre.len() {
                        assert(pre[j] == x);
                    }
                }
                if pre.contains(x) {
                    let j = choose|j: int| 0 <= j < pre.len() && pre[j] == x;
                    assert(next[j] == x);
                }
                if x == v.deep_view()[i as int] {
                    assert(next[i as int] == x);
                }
            }
        }
        assert(v.deep_view()[i as int] == v@[i as int]@);
        if !str_eq(v[i].as_str(), s) {
            let ghost vi = v.deep_view()[i as int];
            assert(!out.deep_view().contains(vi)) by {
                if out.deep_view().contains(vi) {
                    assert(out.deep_view().to_set().contains(vi));
                    let j = choose|j: int| 0 <= j < pre.len() && pre[j] == vi;
                    assert(v.deep_view()[j] == v.deep_view()[i as int]);
                }
            }
            insert_str(&mut out, v[i].clone());
            assert(out.deep_view().to_set() =~= next.to_set().remove(s@));
        } else {
            assert(out.deep_view().to_set() =~= next.to_set().remove(s@));
        }
        i = i + 1;
    }
    assert(v.deep_view().subrange(0, v.len() as int) =~= v.deep_view());
    out
}

/// Every (id, path) pair of a `[mods]` section's sources comes from a pair of
/// the section that has a value, and the ids of the sources are distinct.
proof fn lemma_mod_sources(p: PairSeq)
    requires
        unique_keys(p),
    ensures
        unique_keys(mod_sources_of(p)),
        forall|id: Seq<char>, path: Seq<char>|
            #![trigger mod_sources_of(p).contains((id, path))]
            mod_sources_of(p).contains((id, path)) <==> exists|j: int|
                0 <= j < p.len() && (#[trigger] p[j]).0 == id && p[j].1 is Some && path
                    == trim_quotes(p[j].1.unwrap()),
    decreases p.len(),
{
    if p.len() > 0 {
        let t = p.drop_last();
        assert(unique_keys(t)) by {
            assert forall|a: int, b: int|
                0 <= a < t.len() && 0 <= b < t.len() && a != b implies #[trigger] t[a].0
                != #[trigger] t[b].0 by {
                assert(t[a] == p[a] && t[b] == p[b]);
            }
        }
        lemma_mod_sources(t);
        let rest = mod_sources_of(t);
        let s = mod_sources_of(p);
        assert forall|id: Seq<char>, path: Seq<char>|
            s.contains((id, path)) <==> exists|j: int|
                0 <= j < p.len() && (#[trigger] p[j]).0 == id && p[j].1 is Some && path
                    == trim_quotes(p[j].1.unwrap()) by {
            if s.contains((id, path)) {
                let k = choose|k: int| 0 <= k < s.len() && s[k] == (id, path);
                if k < rest.len() {
                    assert(rest.contains((id, path)));
                    let j = choose|j: int|
                        0 <= j < t.len() && (#[trigger] t[j]).0 == id && t[j].1 is Some && path
                            == trim_quotes(t[j].1.unwrap());
                    assert(p[j] == t[j]);
                } else {
                    assert(p[p.len() - 1].0 == id);
                }
            }
            if exists|j: int|
                0 <= j < p.len() && (#[trigger] p[j]).0 == id && p[j].1 is Some && path
                    == trim_quotes(p[j].1.unwrap()) {
                let j = choose|j: int|
                    0 <= j < p.len() && (#[trigger] p[j]).0 == id && p[j].1 is Some && path
                        == trim_quotes(p[j].1.unwrap());
                if j < p.len() - 1 {
                    assert(t[j] == p[j]);
                    assert(rest.contains((id, path)));
                    let k = choose|k: int| 0 <= k < rest.len() && rest[k] == (id, path);
                    assert(s[k] == rest[k]);
                } else {
                    assert(s[s.len() - 1] == (id, path));
                }
            }
        }
        assert(unique_keys(s)) by {
            assert forall|a: int, b: int|
                0 <= a < s.len() && 0 <= b < s.len() && a != b implies #[trigger] s[a].0
                != #[trigger] s[b].0 by {
                if a < rest.len() && b < rest.len() {
                    assert(s[a] == rest[a] && s[b] == rest[b]);
                } else if a < rest.len() {
                    assert(rest.contains(s[a]));
                    let j = choose|j: int|
                        0 <= j < t.len() && (#[trigger] t[j]).0 == s[a].0 && t[j].1 is Some
                            && s[a].1 == trim_quotes(t[j].1.unwrap());
                    assert(p[j] == t[j]);
                    assert(s[b].0 == p[p.len() - 1].0);
                } else if b < rest.len() {
                    assert(rest.contains(s[b]));
                    let j = choose|j: int|
                        0 <= j < t.len() && (#[trigger] t[j]).0 == s[b].0 && t[j].1 is Some
                            && s[b].1 == trim_quotes(t[j].1.unwrap());
                    assert(p[j] == t[j]);
                    assert(s[a].0 == p[p.len() - 1].0);
                }
            }
        }
    }
}

/// A list of strings in which no string occurs twice.
pub struct StrSet {
    items: Vec<String>,
}

impl StrSet {
    /// No string occurs twice.
    #[verifier::type_invariant]
    spec fn inv(self) -> bool {
        self.items.deep_view().no_duplicates()
    }

    /// The strings, in order.
    pub closed spec fn seq(&self) -> Seq<Seq<char>> {
        self.items.deep_view()
    }

    /// The set with the strings of `items`, which hold no string twice.
    fn from_vec(items: Vec<String>) -> (r: Self)
        requires
            items.deep_view().no_duplicates(),
        ensures
            r.seq() == items.deep_view(),
    {
        StrSet { items }
    }

    /// The strings, in order.
    pub fn items(&self) -> (r: &Vec<String>)
        ensures
            r.deep_view() == self.seq(),
            r.deep_view().no_duplicates(),
    {
        proof {
            use_type_invariant(self);
        }
        &self.items
    }
}

/// The state of the mod manager.
pub struct ModManager {
    cfg: Ini,
    ini_path: Option<String>,
    active: StrSet,
    cheats: StrSet,
    mods: Vec<ModEntry>,
}

impl ModManager {
    /// The configuration keeps the settings that `Ini::new` gives it.
    #[verifier::type_invariant]
    spec fn inv(self) -> bool {
        ini_default(self.cfg)
    }

    /// The document of the open database.
    pub closed spec fn contents(&self) -> IniMap {
        ini_contents(self.cfg)
    }

    /// The path of the open database, once one was chosen.
    pub closed spec fn path(&self) -> Option<Seq<char>> {
        self.ini_path.deep_view()
    }

    /// The active mods, by id.
    pub closed spec fn active(&self) -> Seq<Seq<char>> {
        self.active.seq()
    }

    /// The enabled cheats, by name.
    pub closed spec fn cheats(&self) -> Seq<Seq<char>> {
        self.cheats.seq()
    }

    /// The installed mods as (id, path, title).
    pub closed spec fn mods(&self) -> Seq<(Seq<char>, Seq<char>, Seq<char>)> {
        self.mods@.map_values(|m: ModEntry| m@)
    }

    /// A manager with no database open.
    pub fn new() -> (m: Self)
        ensures
            m.contents() == IniMap::empty(),
            m.path() is None,
            m.active() == Seq::<Seq<char>>::empty(),
            m.cheats() == Seq::<Seq<char>>::empty(),
            m.mods() == Seq::<(Seq<char>, Seq<char>, Seq<char>)>::empty(),
    {
        let a: Vec<String> = Vec::new();
        let c: Vec<String> = Vec::new();
        assert(a.deep_view() =~= Seq::<Seq<char>>::empty());
        assert(c.deep_view() =~= Seq::<Seq<char>>::empty());
        let m = ModManager {
            cfg: ini_new(),
            ini_path: None,
            active: StrSet::from_vec(a),
            cheats: StrSet::from_vec(c),
            mods: Vec::new(),
        };
        assert(m.mods() =~= Seq::<(Seq<char>, Seq<char>, Seq<char>)>::empty());
        m
    }

    /// The INI configuration of the open database.
    pub fn config(&self) -> (r: &Ini)
        ensures
            ini_contents(*r) == self.contents(),
            ini_default(*r),
    {
        proof {
            use_type_invariant(self);
        }
        &self.cfg
    }

    /// The path of the open database.
    pub fn ini_path(&self) -> (r: &Option<String>)
        ensures
            r.deep_view() == self.path(),
    {
        &self.ini_path
    }

    /// Remembers `path` as the path of the database.
    pub fn set_ini_path(&mut self, path: String)
        ensures
            final(self).path() == Some(path@),
            final(self).contents() == old(self).contents(),
            final(self).active() == old(self).active(),
            final(self).cheats() == old(self).cheats(),
            final(self).mods() == old(self).mods(),
    {
        proof {
            use_type_invariant(&*self);
        }
        self.ini_path = Some(path);
    }

    /// The active mods, in the order they were enabled or listed.
    pub fn active_mods(&self) -> (r: &Vec<String>)
        ensures
            r.deep_view() == self.active(),
            r.deep_view().no_duplicates(),
    {
        self.active.items()
    }

    /// The enabled cheats.
    pub fn enabled_cheats(&self) -> (r: &Vec<String>)
        ensures
            r.deep_view() == self.cheats(),
            r.deep_view().no_duplicates(),
    {
        self.cheats.items()
    }

    /// The installed mods.
    pub fn mods_list(&self) -> (r: &Vec<ModEntry>)
        ensures
            r@.map_values(|m: ModEntry| m@) == self.mods(),
    {
        &self.mods
    }

    /// Whether the mod `id` is active.
    pub fn is_active(&self, id: &str) -> (r: bool)
        ensures
            r == self.active().contains(id@),
    {
        holds_str(self.active.items(), id)
    }

    /// Whether the cheat `name` is enabled.
    pub fn has_cheat(&self, name: &str) -> (r: bool)
        ensures
            r == self.cheats().contains(name@),
    {
        holds_str(self.cheats.items(), name)
    }

    /// Turns the mod `id` on or off, as its checkbox does.
    pub fn set_active(&mut self, id: &str, on: bool)
        ensures
            final(self).active().no_duplicates(),
            final(self).active().to_set() == if on {
                old(self).active().to_set().insert(id@)
            } else {
                old(self).active().to_set().remove(id@)
            },
            final(self).contents() == old(self).contents(),
            final(self).path() == old(self).path(),
            final(self).cheats() == old(self).cheats(),
            final(self).mods() == old(self).mods(),
    {
        proof {
            use_type_invariant(&*self);
        }
        let cur = self.active.items();
        if on {
            let mut v = cur.clone();
            assert(v.deep_view() =~= cur.deep_view()) by {
                assert forall|i: int| 0 <= i < v.len() implies v.deep_view()[i] == cur.deep_view()[i] by {
                    assert(v@[i] == cur@[i]);
                }
            }
            insert_str(&mut v, copy_str(id));
            self.active = StrSet::from_vec(v);
        } else {
            self.active = StrSet::from_vec(remove_str(cur, id));
        }
    }

    /// Turns the cheat `name` on or off, as its checkbox does.
    pub fn set_cheat(&mut self, name: &str, on: bool)
        ensures
            final(self).cheats().no_duplicates(),
            final(self).cheats().to_set() == if on {
                old(self).cheats().to_set().insert(name@)
            } else {
                old(self).cheats().to_set().remove(name@)
            },
            final(self).contents() == old(self).contents(),
            final(self).path() == old(self).path(),
            final(self).active() == old(self).active(),
            final(self).mods() == old(self).mods(),
    {
        proof {
            use_type_invariant(&*self);
        }
        let cur = self.cheats.items();
        if on {
            let mut v = cur.clone();
            assert(v.deep_view() =~= cur.deep_view()) by {
                assert forall|i: int| 0 <= i < v.len() implies v.deep_view()[i] == cur.deep_view()[i] by {
                    assert(v@[i] == cur@[i]);
                }
            }
            insert_str(&mut v, copy_str(name));
            self.cheats = StrSet::from_vec(v);
        } else {
            self.cheats = StrSet::from_vec(remove_str(cur, name));
        }
    }

    /// Reads the text of a database. On success the document replaces the old
    /// one, the active mods and the enabled cheats are those it lists, the mod
    /// list is emptied, and the result holds the (id, `mod.ini` path) of each
    /// mod that `[mods]` lists, each id once, for the caller to read their
    /// titles and add them. On failure the parser's message comes back and
    /// nothing changes.
    pub fn read_database(&mut self, text: String) -> (r: Result<Vec<(String, String)>, String>)
        ensures
            final(self).path() == old(self).path(),
            match ini_read_result(text@) {
                Ok(m) => {
                    &&& r is Ok
                    &&& final(self).contents() == m
                    &&& final(self).active().no_duplicates()
                    &&& final(self).active().to_set() == loaded_active(m)
                    &&& final(self).cheats().no_duplicates()
                    &&& final(self).cheats().to_set() == loaded_cheats(m)
                    &&& final(self).mods() == Seq::<(Seq<char>, Seq<char>, Seq<char>)>::empty()
                    &&& r matches Ok(src) && unique_keys(src.deep_view()) && forall|id: Seq<char>, path: Seq<char>|
                        #![trigger src.deep_view().contains((id, path))]
                        src.deep_view().contains((id, path)) <==> lists_mod(m, id, path)
                },
                Err(e) => {
                    &&& r matches Err(msg) && msg@ == e
                    &&& final(self).contents() == old(self).contents()
                    &&& final(self).active() == old(self).active()
                    &&& final(self).cheats() == old(self).cheats()
                    &&& final(self).mods() == old(self).mods()
                },
            },
    {
        proof {
            use_type_invariant(&*self);
        }
        let mut cfg = ini_new();
        std::mem::swap(&mut cfg, &mut self.cfg);
        let read = ini_read(&mut cfg, text);
        let doc = ini_sections(&cfg);
        self.cfg = cfg;
        match read {
            Err(e) => Err(e),
            Ok(()) => {
                let ghost d = doc.deep_view();
                let ghost m = ini_contents(self.cfg);
                self.active = StrSet::from_vec(active_from_sections(&doc));
                self.cheats = StrSet::from_vec(cheats_from_sections(&doc));
                self.mods = Vec::new();
                assert(self.mods() =~= Seq::<(Seq<char>, Seq<char>, Seq<char>)>::empty());
                let src = mod_sources(&doc);
                proof {
                    match doc_section(d, "mods"@) {
                        Some(p) => {
                            let si = choose|si: int| 0 <= si < d.len() && d[si].0 == "mods"@;
                            lemma_pairs_map(d);
                            lemma_doc_section_at(d, si);
                            lemma_pairs_map(p);
                            lemma_mod_sources(p);
                            assert forall|id: Seq<char>, path: Seq<char>|
                                #![trigger src.deep_view().contains((id, path))]
                                src.deep_view().contains((id, path)) <==> lists_mod(m, id, path) by {
                                if lists_mod(m, id, path) {
                                    let j = choose|j: int| 0 <= j < p.len() && p[j].0 == id;
                                    assert(p[j].0 == id);
                                }
                            }
                        },
                        None => {
                            assert forall|id: Seq<char>, path: Seq<char>|
                                #![trigger src.deep_view().contains((id, path))]
                                !lists_mod(m, id, path) by {
                                if m.contains_key("mods"@) {
                                    lemma_pairs_map(crate::ini::doc_maps(d));
                                    let si = choose|si: int| 0 <= si < d.len() && crate::ini::doc_maps(d)[si].0 == "mods"@;
                                    lemma_doc_section_at(d, si);
                                }
                            }
                        },
                    }
                }
                Ok(src)
            },
        }
    }

    /// Adds a mod to the list, titled from the text of its `mod.ini` (or
    /// `<NoTitle>`).
    pub fn add_mod(&mut self, id: String, path: String, mod_ini_text: Option<String>)
        ensures
            final(self).mods() == old(self).mods().push((id@, path@, title_of(mod_ini_text.deep_view()))),
            final(self).contents() == old(self).contents(),
            final(self).path() == old(self).path(),
            final(self).active() == old(self).active(),
            final(self).cheats() == old(self).cheats(),
    {
        proof {
            use_type_invariant(&*self);
        }
        let title = mod_title(mod_ini_text);
        let ghost before = self.mods@;
        let mut mods: Vec<ModEntry> = Vec::new();
        std::mem::swap(&mut mods, &mut self.mods);
        mods.push(ModEntry { id, path, title });
        self.mods = mods;
        assert(self.mods@.map_values(|m: ModEntry| m@) =~= before.map_values(|m: ModEntry| m@).push(
            self.mods@[before.len() as int]@,
        ));
    }

    /// Registers a mod whose `mod.ini` lies at `mod_ini_path` under the id `id`:
    /// `[mods]` gets the path, with forward slashes and between quotes, under the
    /// folded id, and the mod list gets the mod with its title.
    pub fn register_mod(&mut self, id: String, mod_ini_path: &str, mod_ini_text: Option<String>)
        ensures
            final(self).contents() == ini_update(
                old(self).contents(),
                "mods"@,
                ini_fold(id@),
                Some(quoted(slashes(mod_ini_path@))),
            ),
            final(self).mods() == old(self).mods().push(
                (id@, slashes(mod_ini_path@), title_of(mod_ini_text.deep_view())),
            ),
            final(self).path() == old(self).path(),
            final(self).active() == old(self).active(),
            final(self).cheats() == old(self).cheats(),
    {
        let path = normalize_slashes(mod_ini_path);
        proof {
            lemma_ascii_name_folded();
        }
        proof {
            use_type_invariant(&*self);
        }
        let mut cfg = ini_new();
        std::mem::swap(&mut cfg, &mut self.cfg);
        ini_set(&mut cfg, "mods", id.as_str(), Some(quote(path.as_str())));
        self.cfg = cfg;
        self.add_mod(id, path, mod_ini_text);
    }

    /// Imports a mod whose `mod.ini` lies at `mod_ini_path` under a fresh random
    /// id, which comes back.
    pub fn import_mod(&mut self, mod_ini_path: &str, mod_ini_text: Option<String>) -> (id: String)
        ensures
            uuid_shaped(id@),
            final(self).contents() == ini_update(
                old(self).contents(),
                "mods"@,
                id@,
                Some(quoted(slashes(mod_ini_path@))),
            ),
            final(self).mods() == old(self).mods().push(
                (id@, slashes(mod_ini_path@), title_of(mod_ini_text.deep_view())),
            ),
            final(self).path() == old(self).path(),
            final(self).active() == old(self).active(),
            final(self).cheats() == old(self).cheats(),
    {
        let id = new_uuid_string();
        proof {
            lemma_uuid_folded(id@);
        }
        self.register_mod(id.clone(), mod_ini_path, mod_ini_text);
        id
    }

    /// Writes the active mods and the enabled cheats into the document, as
    /// saving does before the file is written.
    pub fn prepare_save(&mut self)
        ensures
            final(self).contents() == saved(
                old(self).contents(),
                old(self).active(),
                old(self).cheats(),
            ),
            final(self).path() == old(self).path(),
            final(self).active() == old(self).active(),
            final(self).cheats() == old(self).cheats(),
            final(self).mods() == old(self).mods(),
    {
        proof {
            use_type_invariant(&*self);
        }
        let mut cfg = ini_new();
        std::mem::swap(&mut cfg, &mut self.cfg);
        let doc = ini_sections(&cfg);
        let ghost d = doc.deep_view();
        let ghost c = ini_contents(cfg);
        proof {
            lemma_ascii_name_folded();
            lemma_list_names();
        }
        match find_key(&doc, "main") {
            Some(si) => {
                proof {
                    lemma_doc_section_at(d, si as int);
                }
                assert(d[si as int].1 == doc[si as int].1.deep_view());
                purge_keys(&mut cfg, &doc[si].1, "main", "activemod", "activemodcount");
            },
            None => {
                proof {
                    lemma_doc_section_absent(d, "main"@);
                }
            },
        }
        let ghost c1 = ini_contents(cfg);
        assert(c1 == purged(c, "main"@, "activemod"@, "activemodcount"@));
        match find_key(&doc, "codes") {
            Some(si) => {
                proof {
                    lemma_doc_section_at(d, si as int);
                }
                assert(d[si as int].1 == doc[si as int].1.deep_view());
                assert(c1.contains_key("codes"@));
                assert(c1["codes"@] == c["codes"@]);
                purge_keys(&mut cfg, &doc[si].1, "codes", "code", "codecount");
            },
            None => {
                proof {
                    lemma_doc_section_absent(d, "codes"@);
                }
            },
        }
        assert(ini_contents(cfg) == purged(c1, "codes"@, "code"@, "codecount"@));
        write_list(&mut cfg, "main", "activemodcount", "activemod", self.active.items());
        write_list(&mut cfg, "codes", "codecount", "code", self.cheats.items());
        self.cfg = cfg;
    }

    /// The text of the database file: `[Main]`, `[Mods]` and `[Codes]` with the
    /// saved spelling of their keys, in the order that a walk of the document
    /// gives (the document is a hash map, so that order is not fixed).
    pub fn render_database(&self) -> (r: String)
        ensures
            exists|d: crate::ini::DocSeq|
                doc_wf(d) && doc_contents(d) == self.contents() && r@ == rendered(d),
    {
        let doc = ini_sections(&self.cfg);
        render_sections(&doc)
    }
}

} // verus!
