//! What a mod database holds: the active mods listed in `[main]`, the enabled
//! cheat codes of `[codes]`, the installed mods of `[mods]`, and a mod's title
//! from its own `mod.ini`.
use vstd::prelude::*;

use crate::cheats::{is_cheat, is_known_cheat};
use crate::ini::{
    doc_contents, doc_wf, find_key, ini_fold, ini_get, ini_new, ini_read, ini_read_result,
    ini_value, lemma_doc_section_absent, lemma_doc_section_at, lemma_pairs_map, pairs_map,
    IniMap, PairSeq,
};
use crate::text::{
    concat, decimal, decimal_string, parse_usize, parse_usize_str, str_eq, trim_quotes,
    trim_quotes_str,
};

verus! {

/// The key under which `[main]` lists the `i`-th active mod.
pub open spec fn active_key(i: nat) -> Seq<char> {
    "activemod"@ + decimal(i)
}

/// The number of active mods that `[main]` announces, where it announces a number.
pub open spec fn active_count(c: IniMap) -> Option<usize> {
    match ini_value(c, "main"@, "activemodcount"@) {
        Some(v) => parse_usize(v),
        None => None,
    }
}

/// `[main]` lists `id`, unquoted, as its `i`-th active mod.
pub open spec fn lists_active(c: IniMap, i: nat, id: Seq<char>) -> bool {
    ini_value(c, "main"@, active_key(i)) matches Some(v) && id == trim_quotes(v)
}

/// The active mods of a database: the unquoted values of the first `n` numbered
/// keys of `[main]`, where `n` is the announced count; none where no count is
/// announced.
pub open spec fn loaded_active(c: IniMap) -> Set<Seq<char>> {
    match active_count(c) {
        Some(n) => Set::new(
            |id: Seq<char>| exists|i: nat| i < n && #[trigger] lists_active(c, i, id),
        ),
        None => Set::empty(),
    }
}

/// `[codes]` holds under `k` a value that, unquoted, is the known cheat `name`.
pub open spec fn lists_cheat(c: IniMap, k: Seq<char>, name: Seq<char>) -> bool {
    ini_value(c, "codes"@, k) matches Some(v) && name == trim_quotes(v) && is_known_cheat(name)
}

/// The enabled cheats of a database: every value of `[codes]` that, unquoted,
/// names a known cheat.
pub open spec fn loaded_cheats(c: IniMap) -> Set<Seq<char>> {
    Set::new(|name: Seq<char>| exists|k: Seq<char>| #[trigger] lists_cheat(c, k, name))
}

/// `[mods]` lists the mod `id` with its `mod.ini` at `path` (the value unquoted).
pub open spec fn lists_mod(c: IniMap, id: Seq<char>, path: Seq<char>) -> bool {
    ini_value(c, "mods"@, id) matches Some(p) && path == trim_quotes(p)
}

/// The (id, unquoted path) pairs of a `[mods]` section, in its order, for the
/// keys that have a value.
pub open spec fn mod_sources_of(pairs: PairSeq) -> Seq<(Seq<char>, Seq<char>)>
    decreases pairs.len(),
{
    if pairs.len() == 0 {
        Seq::empty()
    } else {
        let rest = mod_sources_of(pairs.drop_last());
        match pairs.last().1 {
            Some(p) => rest.push((pairs.last().0, trim_quotes(p))),
            None => rest,
        }
    }
}

/// The title that a mod's `mod.ini` text gives it: the unquoted `title` of its
/// `[desc]` section, or `<NoTitle>` where there is no text, the text does not
/// parse, or it has no such value.
pub open spec fn title_of(text: Option<Seq<char>>) -> Seq<char> {
    match text {
        Some(t) => match ini_read_result(t) {
            Ok(m) => match ini_value(m, "desc"@, "title"@) {
                Some(v) => trim_quotes(v),
                None => "<NoTitle>"@,
            },
            Err(_) => "<NoTitle>"@,
        },
        None => "<NoTitle>"@,
    }
}

/// The value of `key` in section `sec` of a document given as sections.
pub fn doc_value(doc: &Vec<(String, Vec<(String, Option<String>)>)>, sec: &str, key: &str) -> (r:
    Option<String>)
    requires
        doc_wf(doc.deep_view()),
    ensures
        r.deep_view() == ini_value(doc_contents(doc.deep_view()), sec@, key@),
{
    let ghost d = doc.deep_view();
    match find_key(doc, sec) {
        None => {
            proof {
                lemma_doc_section_absent(d, sec@);
            }
            None
        },
        Some(si) => {
            proof {
                lemma_doc_section_at(d, si as int);
            }
            let pairs = &doc[si].1;
            let ghost p = pairs.deep_view();
            assert(p == d[si as int].1);
            proof {
                lemma_pairs_map(p);
            }
            match find_key(pairs, key) {
                None => {
                    assert(!pairs_map(p).contains_key(key@)) by {
                        if pairs_map(p).contains_key(key@) {
                            let j = choose|j: int| 0 <= j < p.len() && p[j].0 == key@;
                            assert(p[j].0 != key@);
                        }
                    }
                    None
                },
                Some(ki) => {
                    assert(pairs_map(p).contains_key(p[ki as int].0));
                    match &pairs[ki].1 {
                        Some(v) => Some(v.clone()),
                        None => None,
                    }
                },
            }
        },
    }
}

/// Whether `v` holds a string equal to `s`.
pub fn holds_str(v: &Vec<String>, s: &str) -> (r: bool)
    ensures
        r == v.deep_view().contains(s@),
{
    let mut i: usize = 0;
    while i < v.len()
        invariant
            i <= v.len(),
            forall|j: int| 0 <= j < i ==> v.deep_view()[j] != s@,
        decreases v.len() - i,
    {
        assert(v.deep_view()[i as int] == v@[i as int]@);
        if str_eq(v[i].as_str(), s) {
            return true;
        }
        i = i + 1;
    }
    assert(!v.deep_view().contains(s@)) by {
        if v.deep_view().contains(s@) {
            let j = choose|j: int| 0 <= j < v.deep_view().len() && v.deep_view()[j] == s@;
            assert(j < i);
        }
    }
    false
}

/// Adds `s` to `v` unless `v` holds it already.
pub fn insert_str(v: &mut Vec<String>, s: String)
    requires
        old(v).deep_view().no_duplicates(),
    ensures
        final(v).deep_view().no_duplicates(),
        final(v).deep_view().to_set() == old(v).deep_view().to_set().insert(s@),
        old(v).deep_view().contains(s@) ==> final(v).deep_view() == old(v).deep_view(),
{
    if !holds_str(v, s.as_str()) {
        let ghost before = v.deep_view();
        v.push(s);
        assert(v.deep_view() =~= before.push(s@));
        assert(v.deep_view().to_set() =~= before.to_set().insert(s@)) by {
            assert forall|x: Seq<char>| v.deep_view().contains(x) <==> before.contains(x)
                || x == s@ by {
                if v.deep_view().contains(x) {
                    let j = choose|j: int| 0 <= j < v.deep_view().len() && v.deep_view()[j] == x;
                    if j < before.len() {
                        assert(before[j] == x);
                    }
                }
                if before.contains(x) {
                    let j = choose|j: int| 0 <= j < before.len() && before[j] == x;
                    assert(v.deep_view()[j] == x);
                }
                if x == s@ {
                    assert(v.deep_view()[before.len() as int] == x);
                }
            }
        }
    } else {
        assert(v.deep_view().to_set() =~= v.deep_view().to_set().insert(s@));
    }
}

/// The active mods that the `[main]` section of a document lists.
pub fn active_from_sections(doc: &Vec<(String, Vec<(String, Option<String>)>)>) -> (r: Vec<
    String,
>)
    requires
        doc_wf(doc.deep_view()),
    ensures
        r.deep_view().no_duplicates(),
        r.deep_view().to_set() == loaded_active(doc_contents(doc.deep_view())),
{
    let ghost c = doc_contents(doc.deep_view());
    let mut out: Vec<String> = Vec::new();
    let count = match doc_value(doc, "main", "activemodcount") {
        Some(v) => parse_usize_str(v.as_str()),
        None => None,
    };
    assert(count == active_count(c));
    let n = match count {
        Some(n) => n,
        None => {
            assert(out.deep_view().to_set() =~= Set::<Seq<char>>::empty());
            return out;
        },
    };
    let mut i: usize = 0;
    while i < n
        invariant
            i <= n,
            c == doc_contents(doc.deep_view()),
            doc_wf(doc.deep_view()),
            out.deep_view().no_duplicates(),
            out.deep_view().to_set() == Set::new(
                |id: Seq<char>| exists|j: nat| j < i && #[trigger] lists_active(c, j, id),
            ),
        decreases n - i,
    {
        let digits = decimal_string(i);
        let key = concat("activemod", digits.as_str());
        let ghost before = out.deep_view().to_set();
        match doc_value(doc, "main", key.as_str()) {
            Some(v) => {
                let id = trim_quotes_str(v.as_str());
                let ghost idv = id@;
                insert_str(&mut out, id);
                assert(out.deep_view().to_set() =~= Set::new(
                    |x: Seq<char>| exists|j: nat| j < i + 1 && #[trigger] lists_active(c, j, x),
                )) by {
                    assert(lists_active(c, i as nat, idv));
                    assert forall|x: Seq<char>|
                        (exists|j: nat| j < i + 1 && #[trigger] lists_active(c, j, x)) implies (
                        before.contains(x) || x == idv) by {
                        let j = choose|j: nat| j < i + 1 && #[trigger] lists_active(c, j, x);
                        if j < i {
                            assert(before.contains(x));
                        }
                    }
                }
            },
            None => {
                assert(out.deep_view().to_set() =~= Set::new(
                    |x: Seq<char>| exists|j: nat| j < i + 1 && #[trigger] lists_active(c, j, x),
                )) by {
                    assert forall|x: Seq<char>|
                        (exists|j: nat| j < i + 1 && #[trigger] lists_active(c, j, x)) implies before.contains(x) by {
                        let j = choose|j: nat| j < i + 1 && #[trigger] lists_active(c, j, x);
                        if j == i {
                            assert(!lists_active(c, j, x));
                        }
                    }
                }
            },
        }
        i = i + 1;
    }
    out
}

/// The enabled cheats that the `[codes]` section of a document lists.
pub fn cheats_from_sections(doc: &Vec<(String, Vec<(String, Option<String>)>)>) -> (r: Vec<
    String,
>)
    requires
        doc_wf(doc.deep_view()),
    ensures
        r.deep_view().no_duplicates(),
        r.deep_view().to_set() == loaded_cheats(doc_contents(doc.deep_view())),
{
    let ghost d = doc.deep_view();
    let ghost c = doc_contents(d);
    let mut out: Vec<String> = Vec::new();
    let si = match find_key(doc, "codes") {
        Some(si) => si,
        None => {
            proof {
                lemma_doc_section_absent(d, "codes"@);
            }
            assert(out.deep_view().to_set() =~= loaded_cheats(c)) by {
                assert forall|x: Seq<char>| !loaded_cheats(c).contains(x) by {
                    assert forall|k: Seq<char>| !lists_cheat(c, k, x) by {}
                }
            }
            return out;
        },
    };
    proof {
        lemma_doc_section_at(d, si as int);
    }
    let pairs = &doc[si].1;
    let ghost p = pairs.deep_view();
    assert(p == d[si as int].1);
    proof {
        lemma_pairs_map(p);
    }
    let mut i: usize = 0;
    while i < pairs.len()
        invariant
            i <= pairs.len(),
            p == pairs.deep_view(),
            c.contains_key("codes"@),
            c["codes"@] == pairs_map(p),
            forall|j: int|
                0 <= j < p.len() ==> #[trigger] pairs_map(p).contains_key(p[j].0) && pairs_map(
                    p,
                )[p[j].0] == p[j].1,
            out.deep_view().no_duplicates(),
            out.deep_view().to_set() == Set::new(
                |x: Seq<char>| exists|j: int| 0 <= j < i && #[trigger] lists_cheat(c, p[j].0, x),
            ),
        decreases pairs.len() - i,
    {
        let ghost before = out.deep_view().to_set();
        assert(pairs_map(p).contains_key(p[i as int].0));
        assert(ini_value(c, "codes"@, p[i as int].0) == p[i as int].1);
        let mut added = false;
        let ghost mut name = Seq::<char>::empty();
        match &pairs[i].1 {
            Some(v) => {
                let clean = trim_quotes_str(v.as_str());
                if is_cheat(clean.as_str()) {
                    proof {
                        name = clean@;
                    }
                    added = true;
                    insert_str(&mut out, clean);
                }
            },
            None => {},
        }
        assert(out.deep_view().to_set() =~= Set::new(
            |x: Seq<char>| exists|j: int| 0 <= j < i + 1 && #[trigger] lists_cheat(c, p[j].0, x),
        )) by {
            assert forall|x: Seq<char>|
                (exists|j: int| 0 <= j < i + 1 && #[trigger] lists_cheat(c, p[j].0, x)) implies (
                before.contains(x) || (added && x == name)) by {
                let j = choose|j: int| 0 <= j < i + 1 && #[trigger] lists_cheat(c, p[j].0, x);
                if j < i {
                    assert(before.contains(x));
                }
            }
            if added {
                assert(lists_cheat(c, p[i as int].0, name));
            }
        }
        i = i + 1;
    }
    assert(out.deep_view().to_set() =~= loaded_cheats(c)) by {
        assert forall|x: Seq<char>| loaded_cheats(c).contains(x) implies out.deep_view().to_set().contains(x) by {
            let k = choose|k: Seq<char>| #[trigger] lists_cheat(c, k, x);
            assert(pairs_map(p).contains_key(k));
            let j = choose|j: int| 0 <= j < p.len() && p[j].0 == k;
            assert(lists_cheat(c, p[j].0, x));
        }
        assert forall|x: Seq<char>| out.deep_view().to_set().contains(x) implies loaded_cheats(c).contains(x) by {
            let j = choose|j: int| 0 <= j < i && #[trigger] lists_cheat(c, p[j].0, x);
            assert(lists_cheat(c, p[j].0, x));
        }
    }
    out
}

/// The (id, unquoted `mod.ini` path) pairs that the `[mods]` section of a
/// document lists, in the order of its pairs.
pub fn mod_sources(doc: &Vec<(String, Vec<(String, Option<String>)>)>) -> (r: Vec<
    (String, String),
>)
    requires
        doc_wf(doc.deep_view()),
    ensures
        r.deep_view() == (match crate::ini::doc_section(doc.deep_view(), "mods"@) {
            Some(p) => mod_sources_of(p),
            None => Seq::empty(),
        }),
{
    let ghost d = doc.deep_view();
    let mut out: Vec<(String, String)> = Vec::new();
    let si = match find_key(doc, "mods") {
        Some(si) => si,
        None => {
            proof {
                lemma_doc_section_absent(d, "mods"@);
            }
            assert(out.deep_view() =~= Seq::<(Seq<char>, Seq<char>)>::empty());
            return out;
        },
    };
    proof {
        lemma_doc_section_at(d, si as int);
    }
    let pairs = &doc[si].1;
    let ghost p = pairs.deep_view();
    assert(p == d[si as int].1);
    let mut i: usize = 0;
    while i < pairs.len()
        invariant
            i <= pairs.len(),
            p == pairs.deep_view(),
            out.deep_view() == mod_sources_of(p.subrange(0, i as int)),
        decreases pairs.len() - i,
    {
        let ghost pre = p.subrange(0, i as int);
        assert(p.subrange(0, i + 1).drop_last() =~= pre);
        assert(p.subrange(0, i + 1).last() == p[i as int]);
        match &pairs[i].1 {
            Some(v) => {
                let path = trim_quotes_str(v.as_str());
                let id = pairs[i].0.clone();
                let ghost before = out.deep_view();
                out.push((id, path));
                assert(out.deep_view() =~= before.push((p[i as int].0, path@)));
            },
            None => {},
        }
        i = i + 1;
    }
    assert(p.subrange(0, p.len() as int) =~= p);
    out
}

/// The title of a mod, read from the text of its `mod.ini`.
pub fn mod_title(text: Option<String>) -> (r: String)
    ensures
        r@ == title_of(text.deep_view()),
{
    let no_title = crate::text::copy_str("<NoTitle>");
    match text {
        None => no_title,
        Some(t) => {
            let ghost tv = t@;
            let mut m = ini_new();
            match ini_read(&mut m, t) {
                Err(_) => no_title,
                Ok(()) => {
                    proof {
                        lemma_ascii_name_folded();
                    }
                    match ini_get(&m, "desc", "title") {
                        Some(v) => trim_quotes_str(v.as_str()),
                        None => no_title,
                    }
                },
            }
        },
    }
}

/// The fixed section and key names of the database are kept as they are by
/// the INI reader's case folding.
pub proof fn lemma_ascii_name_folded()
    ensures
        ini_fold("desc"@) == "desc"@,
        ini_fold("title"@) == "title"@,
        ini_fold("main"@) == "main"@,
        ini_fold("codes"@) == "codes"@,
        ini_fold("mods"@) == "mods"@,
        ini_fold("activemodcount"@) == "activemodcount"@,
        ini_fold("codecount"@) == "codecount"@,
{
    reveal_strlit("desc");
    reveal_strlit("title");
    reveal_strlit("main");
    reveal_strlit("codes");
    reveal_strlit("mods");
    reveal_strlit("activemodcount");
    reveal_strlit("codecount");
}

} // verus!
