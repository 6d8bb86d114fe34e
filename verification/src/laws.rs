//! Properties of the library that hold for every input: what a saved database
//! gives back when it is read again, what loading keeps out, and what the text
//! helpers do to the strings they are given.
use vstd::prelude::*;

use crate::about::{renderer_name, zip_stem_of};
use crate::cheats::{is_known_cheat, known_cheats, lemma_known_cheat_shape};
use crate::ini::{ini_fold, ini_update, ini_value, IniMap};
use crate::load::{
    active_count, active_key, lists_active, lists_cheat, loaded_active, loaded_cheats,
};
use crate::manager::{is_list_key, lemma_list_names, listed, purged, saved};
use crate::text::{
    decimal, is_digit, lemma_contains_sub_stretch, lemma_decimal_digits, lemma_decimal_injective,
    lemma_parse_decimal, lemma_trim_quoted, lemma_trim_quotes_unquoted, quoted, slashes,
    trim_quotes, unquoted,
};

verus! {

/// Reading a value after an update.
proof fn lemma_value_update(
    c: IniMap,
    s: Seq<char>,
    k: Seq<char>,
    v: Option<Seq<char>>,
    s2: Seq<char>,
    k2: Seq<char>,
)
    ensures
        ini_value(ini_update(c, s, k, v), s2, k2) == if s2 == s && k2 == k {
            v
        } else {
            ini_value(c, s2, k2)
        },
{
}

/// A written list holds under each numbered key its quoted item.
proof fn lemma_listed_entry(
    c: IniMap,
    sec: Seq<char>,
    prefix: Seq<char>,
    items: Seq<Seq<char>>,
    n: nat,
    j: nat,
)
    requires
        j < n <= items.len(),
        items.len() <= usize::MAX,
    ensures
        ini_value(listed(c, sec, prefix, items, n), sec, prefix + decimal(j)) == Some(
            quoted(items[j as int]),
        ),
    decreases n,
{
    let m = (n - 1) as nat;
    lemma_value_update(
        listed(c, sec, prefix, items, m),
        sec,
        prefix + decimal(m),
        Some(quoted(items[m as int])),
        sec,
        prefix + decimal(j),
    );
    if j < m {
        lemma_listed_entry(c, sec, prefix, items, m, j);
        lemma_decimal_injective(j as usize, m as usize);
        if prefix + decimal(j) == prefix + decimal(m) {
            assert((prefix + decimal(j)).subrange(prefix.len() as int, (prefix + decimal(j)).len() as int) =~= decimal(j));
            assert((prefix + decimal(m)).subrange(prefix.len() as int, (prefix + decimal(m)).len() as int) =~= decimal(m));
        }
    }
}

/// A written list leaves every key that is not one of its numbered keys, and
/// every other section, as it was.
proof fn lemma_listed_other(
    c: IniMap,
    sec: Seq<char>,
    prefix: Seq<char>,
    items: Seq<Seq<char>>,
    n: nat,
    s2: Seq<char>,
    k2: Seq<char>,
)
    requires
        s2 != sec || forall|j: nat| j < n ==> k2 != prefix + decimal(j),
    ensures
        ini_value(listed(c, sec, prefix, items, n), s2, k2) == ini_value(c, s2, k2),
    decreases n,
{
    if n > 0 {
        let m = (n - 1) as nat;
        lemma_listed_other(c, sec, prefix, items, m, s2, k2);
        lemma_value_update(
            listed(c, sec, prefix, items, m),
            sec,
            prefix + decimal(m),
            Some(quoted(items[m as int])),
            s2,
            k2,
        );
    }
}

/// A numbered key of a list is never the list's counter key.
proof fn lemma_numbered_not_counter(j: nat)
    ensures
        "activemod"@ + decimal(j) != "activemodcount"@,
        "code"@ + decimal(j) != "codecount"@,
{
    reveal_strlit("activemod");
    reveal_strlit("activemodcount");
    reveal_strlit("code");
    reveal_strlit("codecount");
    lemma_decimal_digits(j);
    assert(("activemod"@ + decimal(j))[9] == decimal(j)[0]);
    assert(("code"@ + decimal(j))[4] == decimal(j)[0]);
    assert(is_digit(decimal(j)[0]));
}

/// In a saved document, `[main]` reads as the written active-mod list.
proof fn lemma_saved_main(c: IniMap, active: Seq<Seq<char>>, cheats: Seq<Seq<char>>, k: Seq<char>)
    ensures
        ini_value(saved(c, active, cheats), "main"@, k) == ini_value(
            listed(
                ini_update(
                    purged(purged(c, "main"@, "activemod"@, "activemodcount"@), "codes"@, "code"@, "codecount"@),
                    "main"@,
                    "activemodcount"@,
                    Some(decimal(active.len())),
                ),
                "main"@,
                "activemod"@,
                active,
                active.len(),
            ),
            "main"@,
            k,
        ),
{
    lemma_list_names();
    let c2 = purged(purged(c, "main"@, "activemod"@, "activemodcount"@), "codes"@, "code"@, "codecount"@);
    let c3 = listed(
        ini_update(c2, "main"@, "activemodcount"@, Some(decimal(active.len()))),
        "main"@,
        "activemod"@,
        active,
        active.len(),
    );
    let v = ini_update(c3, "codes"@, "codecount"@, Some(decimal(cheats.len())));
    lemma_listed_other(v, "codes"@, "code"@, cheats, cheats.len(), "main"@, k);
    lemma_value_update(c3, "codes"@, "codecount"@, Some(decimal(cheats.len())), "main"@, k);
}

/// Saving the database and reading it back gives the active mods that were
/// saved, for mod ids that neither start nor end with a quote (the reader
/// strips quotes from both ends of a value).
pub proof fn law_saved_active_reloads(c: IniMap, active: Seq<Seq<char>>, cheats: Seq<Seq<char>>)
    requires
        active.len() <= usize::MAX,
        forall|i: int| 0 <= i < active.len() ==> unquoted(#[trigger] active[i]),
    ensures
        loaded_active(saved(c, active, cheats)) == active.to_set(),
{
    let n = active.len();
    let s = saved(c, active, cheats);
    let c2 = purged(purged(c, "main"@, "activemod"@, "activemodcount"@), "codes"@, "code"@, "codecount"@);
    let u = ini_update(c2, "main"@, "activemodcount"@, Some(decimal(n)));
    lemma_saved_main(c, active, cheats, "activemodcount"@);
    assert forall|j: nat| j < n implies "activemodcount"@ != "activemod"@ + decimal(j) by {
        lemma_numbered_not_counter(j);
    }
    lemma_listed_other(u, "main"@, "activemod"@, active, n, "main"@, "activemodcount"@);
    lemma_value_update(c2, "main"@, "activemodcount"@, Some(decimal(n)), "main"@, "activemodcount"@);
    lemma_parse_decimal(n as usize);
    assert(active_count(s) == Some(n as usize));
    assert forall|i: nat, x: Seq<char>| i < n implies (#[trigger] lists_active(s, i, x) <==> x == active[i as int]) by {
        lemma_saved_main(c, active, cheats, active_key(i));
        lemma_listed_entry(u, "main"@, "activemod"@, active, n, i);
        lemma_trim_quoted(active[i as int]);
    }
    assert(loaded_active(s) =~= active.to_set()) by {
        assert forall|x: Seq<char>| #[trigger] loaded_active(s).contains(x) implies active.to_set().contains(x) by {
            let i = choose|i: nat| i < n && #[trigger] lists_active(s, i, x);
            assert(active[i as int] == x);
        }
        assert forall|x: Seq<char>| #[trigger] active.to_set().contains(x) implies loaded_active(s).contains(x) by {
            let i = choose|i: int| 0 <= i < active.len() && active[i] == x;
            assert(lists_active(s, i as nat, x));
        }
    }
}

/// In a saved document, `[codes]` reads as the written cheat list on top of
/// the purged section.
proof fn lemma_saved_codes(c: IniMap, active: Seq<Seq<char>>, cheats: Seq<Seq<char>>, k: Seq<char>)
    requires
        cheats.len() <= usize::MAX,
    ensures
        forall|j: nat|
            j < cheats.len() && k == "code"@ + decimal(j) ==> ini_value(
                saved(c, active, cheats),
                "codes"@,
                k,
            ) == Some(quoted(#[trigger] cheats[j as int])),
        k == "codecount"@ ==> ini_value(saved(c, active, cheats), "codes"@, k) == Some(
            decimal(cheats.len()),
        ),
        (forall|j: nat| j < cheats.len() ==> k != "code"@ + decimal(j)) && k != "codecount"@
            ==> ini_value(saved(c, active, cheats), "codes"@, k) == ini_value(
            purged(purged(c, "main"@, "activemod"@, "activemodcount"@), "codes"@, "code"@, "codecount"@),
            "codes"@,
            k,
        ),
{
    lemma_list_names();
    let m = cheats.len();
    let c2 = purged(purged(c, "main"@, "activemod"@, "activemodcount"@), "codes"@, "code"@, "codecount"@);
    let u = ini_update(c2, "main"@, "activemodcount"@, Some(decimal(active.len())));
    let c3 = listed(u, "main"@, "activemod"@, active, active.len());
    let v = ini_update(c3, "codes"@, "codecount"@, Some(decimal(m)));
    assert forall|j: nat| j < m && k == "code"@ + decimal(j) implies ini_value(
        saved(c, active, cheats),
        "codes"@,
        k,
    ) == Some(quoted(#[trigger] cheats[j as int])) by {
        lemma_listed_entry(v, "codes"@, "code"@, cheats, m, j);
    }
    if k == "codecount"@ {
        assert forall|j: nat| j < m implies k != "code"@ + decimal(j) by {
            lemma_numbered_not_counter(j);
        }
    }
    if forall|j: nat| j < m ==> k != "code"@ + decimal(j) {
        lemma_listed_other(v, "codes"@, "code"@, cheats, m, "codes"@, k);
        lemma_value_update(c3, "codes"@, "codecount"@, Some(decimal(m)), "codes"@, k);
        lemma_listed_other(u, "main"@, "activemod"@, active, active.len(), "codes"@, k);
        lemma_value_update(c2, "main"@, "activemodcount"@, Some(decimal(active.len())), "codes"@, k);
    }
}

/// Saving the database and reading it back gives the cheats that were saved,
/// when every saved cheat is a known one and the old `[codes]` section stored
/// its list keys in folded form and held no known cheat under another key
/// (such a value would survive saving and be read back as enabled).
pub proof fn law_saved_cheats_reload(c: IniMap, active: Seq<Seq<char>>, cheats: Seq<Seq<char>>)
    requires
        cheats.len() <= usize::MAX,
        forall|i: int| 0 <= i < cheats.len() ==> is_known_cheat(#[trigger] cheats[i]),
        c.contains_key("codes"@) ==> forall|k: Seq<char>|
            #![trigger c["codes"@].contains_key(k)]
            c["codes"@].contains_key(k) ==> if is_list_key(k, "code"@, "codecount"@) {
                ini_fold(k) == k
            } else {
                forall|x: Seq<char>| !lists_cheat(c, k, x)
            },
    ensures
        loaded_cheats(saved(c, active, cheats)) == cheats.to_set(),
{
    lemma_list_names();
    let m = cheats.len();
    let s = saved(c, active, cheats);
    let c1 = purged(c, "main"@, "activemod"@, "activemodcount"@);
    let c2 = purged(c1, "codes"@, "code"@, "codecount"@);
    assert(c1.contains_key("codes"@) == c.contains_key("codes"@));
    assert(c.contains_key("codes"@) ==> c1["codes"@] == c["codes"@]);
    assert forall|k: Seq<char>, x: Seq<char>|
        #[trigger] lists_cheat(s, k, x) implies exists|j: nat| j < m && k == "code"@ + decimal(j)
        && x == cheats[j as int] by {
        lemma_saved_codes(c, active, cheats, k);
        if exists|j: nat| j < m && k == "code"@ + decimal(j) {
            let j = choose|j: nat| j < m && k == "code"@ + decimal(j);
            lemma_known_cheat_shape(cheats[j as int]);
            lemma_trim_quoted(cheats[j as int]);
            assert(k == "code"@ + decimal(j) && x == cheats[j as int]);
        } else if k == "codecount"@ {
            lemma_decimal_digits(m);
            lemma_trim_quoted_free(decimal(m));
            assert(x == decimal(m));
            if is_known_cheat(decimal(m)) {
                lemma_known_cheat_shape(decimal(m));
                assert(is_digit(decimal(m)[0]));
            }
            assert(false);
        } else {
            // The value comes from the old section, minus the purged keys.
            assert(ini_value(s, "codes"@, k) == ini_value(c2, "codes"@, k));
            if c.contains_key("codes"@) && c["codes"@].contains_key(k) {
                if is_list_key(k, "code"@, "codecount"@) {
                    assert(ini_fold(k) == k);
                    assert(!c2["codes"@].contains_key(k));
                } else {
                    assert(!lists_cheat(c, k, x));
                    let removed = Set::new(
                        |q: Seq<char>|
                            exists|k0: Seq<char>|
                                #![trigger ini_fold(k0)]
                                c1["codes"@].contains_key(k0) && is_list_key(k0, "code"@, "codecount"@)
                                    && q == ini_fold(k0),
                    );
                    if removed.contains(k) {
                        assert(!c2["codes"@].contains_key(k));
                    } else {
                        assert(c2["codes"@] == c1["codes"@].remove_keys(removed));
                        assert(c2["codes"@].contains_key(k));
                        assert(c2["codes"@][k] == c["codes"@][k]);
                    }
                }
            }
            assert(!lists_cheat(s, k, x));
        }
    }
    assert(loaded_cheats(s) =~= cheats.to_set()) by {
        assert forall|x: Seq<char>| #[trigger] loaded_cheats(s).contains(x) implies cheats.to_set().contains(x) by {
            let k = choose|k: Seq<char>| #[trigger] lists_cheat(s, k, x);
            let j = choose|j: nat| j < m && k == "code"@ + decimal(j) && x == cheats[j as int];
        }
        assert forall|x: Seq<char>| #[trigger] cheats.to_set().contains(x) implies loaded_cheats(s).contains(x) by {
            let i = choose|i: int| 0 <= i < cheats.len() && cheats[i] == x;
            let k = "code"@ + decimal(i as nat);
            lemma_saved_codes(c, active, cheats, k);
            let j = choose|j: nat| j < m && k == "code"@ + decimal(j);
            lemma_decimal_injective(i as usize, j as usize);
            assert(k.subrange(4, k.len() as int) =~= decimal(i as nat)) by { reveal_strlit("code"); }
            assert(("code"@ + decimal(j)).subrange(4, k.len() as int) =~= decimal(j)) by { reveal_strlit("code"); }
            assert(j == i);
            lemma_known_cheat_shape(cheats[i]);
            lemma_trim_quoted(cheats[i]);
            assert(lists_cheat(s, k, x));
        }
    }
}

/// Digits carry no quote, so trimming quotes keeps them.
proof fn lemma_trim_quoted_free(d: Seq<char>)
    requires
        d.len() > 0,
        forall|i: int| 0 <= i < d.len() ==> is_digit(#[trigger] d[i]),
    ensures
        trim_quotes(d) == d,
{
    assert(is_digit(d[0]));
    assert(is_digit(d[d.len() - 1]));
    assert(crate::text::trim_start_quotes(d) == d);
    assert(crate::text::trim_end_quotes(d) == d);
}

/// Every cheat that loading enables is a known one.
pub proof fn law_loaded_cheats_known(c: IniMap, name: Seq<char>)
    requires
        loaded_cheats(c).contains(name),
    ensures
        is_known_cheat(name),
{
    let k = choose|k: Seq<char>| #[trigger] lists_cheat(c, k, name);
}

/// The ids and cheat names that loading gives never start or end with a quote.
pub proof fn law_loaded_names_unquoted(c: IniMap, name: Seq<char>)
    requires
        loaded_active(c).contains(name) || loaded_cheats(c).contains(name),
    ensures
        unquoted(name),
{
    if loaded_cheats(c).contains(name) {
        let k = choose|k: Seq<char>| #[trigger] lists_cheat(c, k, name);
        let v = ini_value(c, "codes"@, k).unwrap();
        lemma_trim_quotes_unquoted(v);
    } else {
        let n = active_count(c).unwrap();
        let i = choose|i: nat| i < n && #[trigger] lists_active(c, i, name);
        let v = ini_value(c, "main"@, active_key(i)).unwrap();
        lemma_trim_quotes_unquoted(v);
    }
}

/// The section written for a list: the counter and the numbered, quoted items.
pub open spec fn numbered_entries(prefix: Seq<char>, items: Seq<Seq<char>>, n: nat) -> Map<
    Seq<char>,
    Option<Seq<char>>,
>
    decreases n,
{
    if n == 0 {
        Map::empty()
    } else {
        numbered_entries(prefix, items, (n - 1) as nat).insert(
            prefix + decimal((n - 1) as nat),
            Some(quoted(items[n - 1])),
        )
    }
}

/// The keys and values that saving writes for a list.
pub open spec fn written(count_key: Seq<char>, prefix: Seq<char>, items: Seq<Seq<char>>) -> Map<
    Seq<char>,
    Option<Seq<char>>,
> {
    Map::empty().insert(count_key, Some(decimal(items.len()))).union_prefer_right(
        numbered_entries(prefix, items, items.len()),
    )
}

/// What saving keeps of an old section: every key that is not removed as a list key.
pub open spec fn kept(c: IniMap, sec: Seq<char>, prefix: Seq<char>, count_key: Seq<char>) -> Map<
    Seq<char>,
    Option<Seq<char>>,
> {
    if c.contains_key(sec) {
        purged(c, sec, prefix, count_key)[sec]
    } else {
        Map::empty()
    }
}

/// Writing a list into an existing section adds its numbered entries.
proof fn lemma_listed_map(c: IniMap, sec: Seq<char>, prefix: Seq<char>, items: Seq<Seq<char>>, n: nat)
    requires
        c.contains_key(sec),
    ensures
        listed(c, sec, prefix, items, n) == c.insert(
            sec,
            c[sec].union_prefer_right(numbered_entries(prefix, items, n)),
        ),
    decreases n,
{
    if n == 0 {
        assert(c[sec].union_prefer_right(Map::empty()) =~= c[sec]);
        assert(c.insert(sec, c[sec]) =~= c);
    } else {
        let m = (n - 1) as nat;
        lemma_listed_map(c, sec, prefix, items, m);
        let k = prefix + decimal(m);
        let v = Some(quoted(items[m as int]));
        assert(c[sec].union_prefer_right(numbered_entries(prefix, items, m)).insert(k, v)
            =~= c[sec].union_prefer_right(numbered_entries(prefix, items, n)));
        assert(listed(c, sec, prefix, items, m).insert(
            sec,
            c[sec].union_prefer_right(numbered_entries(prefix, items, n)),
        ) =~= c.insert(sec, c[sec].union_prefer_right(numbered_entries(prefix, items, n))));
    }
}

/// Every key of the numbered entries is the prefix followed by a number.
proof fn lemma_numbered_entries_keys(prefix: Seq<char>, items: Seq<Seq<char>>, n: nat, k: Seq<char>)
    ensures
        numbered_entries(prefix, items, n).contains_key(k) ==> exists|j: nat|
            j < n && k == prefix + decimal(j),
    decreases n,
{
    if n > 0 {
        lemma_numbered_entries_keys(prefix, items, (n - 1) as nat, k);
    }
}

/// Saving changes only `[main]` and `[codes]`: each then holds what saving kept
/// of it plus the entries it wrote, and every other section is as it was.
pub proof fn law_saved_sections(c: IniMap, active: Seq<Seq<char>>, cheats: Seq<Seq<char>>)
    ensures
        saved(c, active, cheats).contains_key("main"@),
        saved(c, active, cheats)["main"@] == kept(c, "main"@, "activemod"@, "activemodcount"@).union_prefer_right(
            written("activemodcount"@, "activemod"@, active),
        ),
        saved(c, active, cheats).contains_key("codes"@),
        saved(c, active, cheats)["codes"@] == kept(c, "codes"@, "code"@, "codecount"@).union_prefer_right(
            written("codecount"@, "code"@, cheats),
        ),
        forall|sec: Seq<char>|
            sec != "main"@ && sec != "codes"@ ==> (#[trigger] saved(c, active, cheats).contains_key(sec)
                == c.contains_key(sec) && (c.contains_key(sec) ==> saved(c, active, cheats)[sec]
                == c[sec])),
{
    lemma_list_names();
    let c1 = purged(c, "main"@, "activemod"@, "activemodcount"@);
    let c2 = purged(c1, "codes"@, "code"@, "codecount"@);
    let u = ini_update(c2, "main"@, "activemodcount"@, Some(decimal(active.len())));
    lemma_listed_map(u, "main"@, "activemod"@, active, active.len());
    let c3 = listed(u, "main"@, "activemod"@, active, active.len());
    let v = ini_update(c3, "codes"@, "codecount"@, Some(decimal(cheats.len())));
    lemma_listed_map(v, "codes"@, "code"@, cheats, cheats.len());
    let base_main = if c2.contains_key("main"@) { c2["main"@] } else { Map::empty() };
    assert(kept(c, "main"@, "activemod"@, "activemodcount"@) == base_main);
    assert(base_main.insert("activemodcount"@, Some(decimal(active.len()))).union_prefer_right(
        numbered_entries("activemod"@, active, active.len()),
    ) =~= base_main.union_prefer_right(written("activemodcount"@, "activemod"@, active)));
    let base_codes = if c3.contains_key("codes"@) { c3["codes"@] } else { Map::empty() };
    assert(c1.contains_key("codes"@) == c.contains_key("codes"@));
    assert(c.contains_key("codes"@) ==> c1["codes"@] == c["codes"@]);
    assert(kept(c, "codes"@, "code"@, "codecount"@) == base_codes);
    assert(base_codes.insert("codecount"@, Some(decimal(cheats.len()))).union_prefer_right(
        numbered_entries("code"@, cheats, cheats.len()),
    ) =~= base_codes.union_prefer_right(written("codecount"@, "code"@, cheats)));
}

/// The keys that saving removes from a section: the folded form of each of its list keys.
pub open spec fn list_keys_folded(m: Map<Seq<char>, Option<Seq<char>>>, prefix: Seq<char>, count_key: Seq<char>) -> Set<Seq<char>> {
    Set::new(
        |k: Seq<char>|
            exists|k0: Seq<char>|
                #![trigger ini_fold(k0)]
                m.contains_key(k0) && is_list_key(k0, prefix, count_key) && k == ini_fold(k0),
    )
}

/// Every key that saving writes for a list is a list key that case folding keeps.
proof fn lemma_written_keys(count_key: Seq<char>, prefix: Seq<char>, items: Seq<Seq<char>>, k: Seq<char>)
    requires
        crate::ini::ascii_folded(prefix),
        ini_fold(count_key) == count_key,
    ensures
        written(count_key, prefix, items).contains_key(k) ==> is_list_key(k, prefix, count_key)
            && ini_fold(k) == k,
{
    if written(count_key, prefix, items).contains_key(k) && k != count_key {
        lemma_numbered_entries_keys(prefix, items, items.len(), k);
        let j = choose|j: nat| j < items.len() && k == prefix + decimal(j);
        crate::manager::lemma_numbered_key_folded(prefix, j);
        assert(k.subrange(0, prefix.len() as int) =~= prefix);
    }
}

/// Saving a section that saving produced keeps what it kept and writes the same
/// entries again.
proof fn lemma_kept_again(
    c: IniMap,
    sec: Seq<char>,
    prefix: Seq<char>,
    count_key: Seq<char>,
    w: Map<Seq<char>, Option<Seq<char>>>,
)
    requires
        forall|k: Seq<char>|
            #[trigger] w.contains_key(k) ==> is_list_key(k, prefix, count_key) && ini_fold(k) == k,
    ensures
        ({
            let s = kept(c, sec, prefix, count_key).union_prefer_right(w);
            s.remove_keys(list_keys_folded(s, prefix, count_key)).union_prefer_right(w) == s
        }),
{
    let kk = kept(c, sec, prefix, count_key);
    let s = kk.union_prefer_right(w);
    let f = list_keys_folded(s, prefix, count_key);
    assert forall|k: Seq<char>| #[trigger] kk.contains_key(k) && !w.contains_key(k) implies !f.contains(k) by {
        if f.contains(k) {
            let k0 = choose|k0: Seq<char>|
                #![trigger ini_fold(k0)]
                s.contains_key(k0) && is_list_key(k0, prefix, count_key) && k == ini_fold(k0);
            if w.contains_key(k0) {
                assert(ini_fold(k0) == k0);
            } else {
                assert(kk.contains_key(k0));
                assert(c.contains_key(sec));
                assert(c[sec].contains_key(k0));
                assert(list_keys_folded(c[sec], prefix, count_key).contains(k));
            }
        }
    }
    assert(s.remove_keys(f).union_prefer_right(w) =~= s);
}

/// Saving twice gives the same document as saving once.
pub proof fn law_save_idempotent(c: IniMap, active: Seq<Seq<char>>, cheats: Seq<Seq<char>>)
    ensures
        saved(saved(c, active, cheats), active, cheats) == saved(c, active, cheats),
{
    crate::load::lemma_ascii_name_folded();
    lemma_list_names();
    let s1 = saved(c, active, cheats);
    let s2 = saved(s1, active, cheats);
    law_saved_sections(c, active, cheats);
    law_saved_sections(s1, active, cheats);
    let wm = written("activemodcount"@, "activemod"@, active);
    let wc = written("codecount"@, "code"@, cheats);
    assert forall|k: Seq<char>| #[trigger] wm.contains_key(k) implies is_list_key(k, "activemod"@, "activemodcount"@) && ini_fold(k) == k by {
        lemma_written_keys("activemodcount"@, "activemod"@, active, k);
    }
    assert forall|k: Seq<char>| #[trigger] wc.contains_key(k) implies is_list_key(k, "code"@, "codecount"@) && ini_fold(k) == k by {
        lemma_written_keys("codecount"@, "code"@, cheats, k);
    }
    lemma_kept_again(c, "main"@, "activemod"@, "activemodcount"@, wm);
    lemma_kept_again(c, "codes"@, "code"@, "codecount"@, wc);
    assert(kept(s1, "main"@, "activemod"@, "activemodcount"@) == s1["main"@].remove_keys(
        list_keys_folded(s1["main"@], "activemod"@, "activemodcount"@),
    ));
    assert(kept(s1, "codes"@, "code"@, "codecount"@) == s1["codes"@].remove_keys(
        list_keys_folded(s1["codes"@], "code"@, "codecount"@),
    ));
    assert(s2 =~= s1) by {
        assert forall|sec: Seq<char>| #[trigger] s2.contains_key(sec) <==> s1.contains_key(sec) by {
            if sec != "main"@ && sec != "codes"@ {
                assert(s2.contains_key(sec) == s1.contains_key(sec));
            }
        }
        assert forall|sec: Seq<char>| #[trigger] s2.contains_key(sec) implies s2[sec] == s1[sec] by {
            if sec != "main"@ && sec != "codes"@ {
                assert(s1.contains_key(sec));
            }
        }
    }
}

/// Normalising a path keeps its length, turns every backslash into a forward
/// slash and leaves every other character (a space too) where it was.
pub proof fn law_slashes_replace_only_backslashes(s: Seq<char>)
    ensures
        slashes(s).len() == s.len(),
        forall|i: int| 0 <= i < s.len() && s[i] == '\\' ==> #[trigger] slashes(s)[i] == '/',
        forall|i: int| 0 <= i < s.len() && s[i] != '\\' ==> #[trigger] slashes(s)[i] == s[i],
{
}

/// A name is a known cheat exactly when it is one of the listed cheat names,
/// and every listed name, the last one included, is known.
pub proof fn law_listed_cheats_known(name: Seq<char>)
    ensures
        is_known_cheat(name) <==> exists|i: int|
            0 <= i < known_cheats().len() && #[trigger] known_cheats()[i] == name,
        forall|i: int| 0 <= i < known_cheats().len() ==> is_known_cheat(#[trigger] known_cheats()[i]),
{
}

/// The renderer label is `GLES` exactly when the version string holds
/// `OpenGL ES` somewhere; every other version string is labelled `GL`.
pub proof fn law_renderer_gles_iff_opengl_es(v: Seq<char>)
    ensures
        renderer_name(v) == "GLES"@ <==> exists|i: int|
            0 <= i && i + "OpenGL ES"@.len() <= v.len() && #[trigger] v.subrange(
                i,
                i + "OpenGL ES"@.len(),
            ) == "OpenGL ES"@,
        renderer_name(v) == "GLES"@ || renderer_name(v) == "GL"@,
{
    reveal_strlit("GLES");
    reveal_strlit("GL");
    assert("GLES"@.len() != "GL"@.len());
    lemma_contains_sub_stretch(v, "OpenGL ES"@);
}

/// Removing the trailing `.zip` extensions leaves a prefix of the name after
/// which the name holds nothing but whole copies of `.zip`, and the result does
/// not itself end with `.zip`.
pub proof fn law_zip_stem_shape(s: Seq<char>)
    ensures
        zip_stem_of(s).len() <= s.len(),
        s.subrange(0, zip_stem_of(s).len() as int) == zip_stem_of(s),
        (s.len() - zip_stem_of(s).len()) % 4 == 0,
        forall|j: int|
            zip_stem_of(s).len() <= j < s.len() ==> #[trigger] s[j] == seq!['.', 'z', 'i', 'p'][(j
                - zip_stem_of(s).len()) % 4],
        !(zip_stem_of(s).len() >= 4 && zip_stem_of(s).subrange(
            zip_stem_of(s).len() - 4,
            zip_stem_of(s).len() as int,
        ) == seq!['.', 'z', 'i', 'p']),
    decreases s.len(),
{
    let z = seq!['.', 'z', 'i', 'p'];
    if s.len() >= 4 && s.subrange(s.len() - 4, s.len() as int) == z {
        let t = s.subrange(0, s.len() - 4);
        law_zip_stem_shape(t);
        let r = zip_stem_of(t);
        assert(zip_stem_of(s) == r);
        assert(s.subrange(0, r.len() as int) =~= t.subrange(0, r.len() as int));
        lemma_zip_tail(s, t, r.len() as int);
    } else {
        assert(s.subrange(0, s.len() as int) =~= s);
    }
}

/// The characters after position `k` of `s` repeat `.zip`, given that they do in
/// `t`, which is `s` without its last four characters, and that those are `.zip`.
proof fn lemma_zip_tail(s: Seq<char>, t: Seq<char>, k: int)
    requires
        s.len() >= 4,
        t == s.subrange(0, s.len() - 4),
        s.subrange(s.len() - 4, s.len() as int) == seq!['.', 'z', 'i', 'p'],
        0 <= k <= t.len(),
        (t.len() - k) % 4 == 0,
        forall|j: int| k <= j < t.len() ==> #[trigger] t[j] == seq!['.', 'z', 'i', 'p'][(j - k) % 4],
    ensures
        (s.len() - k) % 4 == 0,
        forall|j: int| k <= j < s.len() ==> #[trigger] s[j] == seq!['.', 'z', 'i', 'p'][(j - k) % 4],
{
    let z = seq!['.', 'z', 'i', 'p'];
    assert forall|j: int| k <= j < s.len() implies #[trigger] s[j] == z[(j - k) % 4] by {
        if j < t.len() {
            assert(s[j] == t[j]);
        } else {
            assert(s[j] == s.subrange(s.len() - 4, s.len() as int)[j - t.len()]);
            assert((j - k) % 4 == j - t.len());
        }
    }
}

/// A name that does not end with `.zip` is its own stem, and one more `.zip`
/// after a name leaves its stem unchanged.
pub proof fn law_zip_stem_suffix(s: Seq<char>)
    ensures
        !(s.len() >= 4 && s.subrange(s.len() - 4, s.len() as int) == seq!['.', 'z', 'i', 'p'])
            ==> zip_stem_of(s) == s,
        zip_stem_of(s + seq!['.', 'z', 'i', 'p']) == zip_stem_of(s),
{
    let z = seq!['.', 'z', 'i', 'p'];
    let u = s + z;
    assert(u.subrange(u.len() - 4, u.len() as int) =~= z);
    assert(u.subrange(0, u.len() - 4) =~= s);
}

} // verus!
