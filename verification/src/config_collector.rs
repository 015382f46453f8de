//! The entries of a config block: gathered key by key from the option
//! groups, sorted by key, each key once.
use vstd::prelude::*;
use vstd::seq_lib::group_seq_properties;
use crate::config_value::{ConfigValueError, SerializedConfigValue, value_error_message};
use crate::key_order::{key_less, key_lt, lemma_key_less_irreflexive, lemma_key_less_transitive,
    lemma_key_less_antisymmetric, lemma_key_less_total};
use crate::text::{owned, concat, str_eq};

verus! {

/// One option of a config block: its key, its text, and whether it is `nil`.
#[derive(Debug)]
pub struct ConfigEntry {
    pub key: String,
    pub token: String,
    pub is_nil: bool,
}

/// The model of an entry: key, text, `nil` flag.
pub type EntryView = (Seq<char>, Seq<char>, bool);

/// The model of an entry.
pub open spec fn entry_view(e: ConfigEntry) -> EntryView {
    (e.key@, e.token@, e.is_nil)
}

/// The models of a sequence of entries.
pub open spec fn entry_views(s: Seq<ConfigEntry>) -> Seq<EntryView> {
    s.map_values(|e: ConfigEntry| entry_view(e))
}

/// Whether an entry has the key `k`.
pub open spec fn key_is(k: Seq<char>) -> spec_fn(EntryView) -> bool {
    |e: EntryView| e.0 == k
}

/// Keys never decrease along the sequence.
pub open spec fn keys_sorted(s: Seq<EntryView>) -> bool {
    forall|a: int, b: int| 0 <= a < b < s.len() ==> !key_less(#[trigger] s[b].0, #[trigger] s[a].0)
}

/// `r` is `s` sorted by key, entries with equal keys in their order in `s`.
pub open spec fn stable_sort_of(r: Seq<EntryView>, s: Seq<EntryView>) -> bool {
    &&& keys_sorted(r)
    &&& r.to_multiset() == s.to_multiset()
    &&& forall|k: Seq<char>| #[trigger] r.filter(key_is(k)) == s.filter(key_is(k))
}

/// A copy of an entry.
pub fn copy_entry(e: &ConfigEntry) -> (r: ConfigEntry)
    ensures
        entry_view(r) == entry_view(*e),
{
    ConfigEntry { key: owned(e.key.as_str()), token: owned(e.token.as_str()), is_nil: e.is_nil }
}

/// Inserting `e` after every entry whose key does not come after its own
/// keeps a stable sort stable.
proof fn lemma_insert_sorted(out: Seq<EntryView>, src: Seq<EntryView>, p: int, e: EntryView)
    requires
        stable_sort_of(out, src),
        0 <= p <= out.len(),
        forall|a: int| 0 <= a < p ==> !key_less(e.0, #[trigger] out[a].0),
        p < out.len() ==> key_less(e.0, out[p].0),
    ensures
        stable_sort_of(out.insert(p, e), src.push(e)),
{
    broadcast use group_seq_properties;

    let r = out.insert(p, e);
    assert forall|b: int| p <= b < out.len() implies key_less(e.0, #[trigger] out[b].0) by {
        if b > p {
            if !key_less(e.0, out[b].0) {
                assert(!key_less(out[b].0, out[p].0));
                if key_less(out[b].0, e.0) {
                    lemma_key_less_transitive(out[b].0, e.0, out[p].0);
                } else {
                    lemma_key_less_antisymmetric(out[b].0, e.0);
                }
            }
        }
    }
    assert forall|a: int, b: int| 0 <= a < b < r.len() implies !key_less(
        #[trigger] r[b].0,
        #[trigger] r[a].0,
    ) by {
        if b < p {
            assert(r[a] == out[a] && r[b] == out[b]);
        } else if b == p {
            assert(r[b] == e && r[a] == out[a]);
        } else if a == p {
            assert(r[a] == e && r[b] == out[b - 1]);
            if key_less(out[b - 1].0, e.0) {
                lemma_key_less_transitive(e.0, out[b - 1].0, e.0);
                lemma_key_less_irreflexive(e.0);
            }
        } else if a < p {
            assert(r[a] == out[a] && r[b] == out[b - 1]);
        } else {
            assert(r[a] == out[a - 1] && r[b] == out[b - 1]);
        }
    }
    vstd::seq_lib::to_multiset_insert(out, p, e);
    vstd::seq_lib::to_multiset_build(src, e);
    let head = out.take(p);
    let tail = out.skip(p);
    assert(out =~= head + tail);
    assert(r =~= head + seq![e] + tail);
    assert forall|k: Seq<char>| #[trigger] r.filter(key_is(k)) == src.push(e).filter(key_is(k)) by {
        let f = key_is(k);
        Seq::filter_distributes_over_add(head, tail, f);
        Seq::filter_distributes_over_add(head + seq![e], tail, f);
        Seq::filter_distributes_over_add(head, seq![e], f);
        src.lemma_filter_push(e, f);
        assert(seq![e] =~= Seq::<EntryView>::empty().push(e));
        Seq::<EntryView>::empty().lemma_filter_push(e, f);
        assert(Seq::<EntryView>::empty().filter(f) =~= Seq::<EntryView>::empty()) by {
            reveal(Seq::filter);
        }
        if k == e.0 {
            assert forall|b: int| 0 <= b < tail.len() implies !f(#[trigger] tail[b]) by {
                assert(tail[b] == out[p + b]);
                lemma_key_less_irreflexive(e.0);
            }
            tail.lemma_all_neg_filter_empty(f);
            assert(tail.filter(f) =~= Seq::<EntryView>::empty());
            assert(out.filter(f) =~= head.filter(f));
        }
    }
}

/// The entries sorted by key; entries with equal keys keep their order.
pub fn sort_entries(entries: &Vec<ConfigEntry>) -> (r: Vec<ConfigEntry>)
    ensures
        stable_sort_of(entry_views(r@), entry_views(entries@)),
{
    let ghost src = entry_views(entries@);
    let mut out: Vec<ConfigEntry> = Vec::new();
    let mut i: usize = 0;
    proof {
        assert(src.take(0) =~= Seq::<EntryView>::empty());
        assert(entry_views(out@) =~= Seq::<EntryView>::empty());
    }
    while i < entries.len()
        invariant
            i <= entries@.len(),
            src == entry_views(entries@),
            stable_sort_of(entry_views(out@), src.take(i as int)),
        decreases entries@.len() - i,
    {
        let e = copy_entry(&entries[i]);
        let ghost ev = entry_view(e);
        let ghost before = entry_views(out@);
        let mut p: usize = 0;
        while p < out.len() && !key_lt(e.key.as_str(), out[p].key.as_str())
            invariant
                p <= out@.len(),
                before == entry_views(out@),
                ev == entry_view(e),
                forall|a: int| 0 <= a < p ==> !key_less(ev.0, #[trigger] before[a].0),
            decreases out@.len() - p,
        {
            p = p + 1;
        }
        proof {
            lemma_insert_sorted(before, src.take(i as int), p as int, ev);
            assert(src.take(i as int).push(ev) =~= src.take(i + 1));
        }
        out.insert(p, e);
        proof {
            assert(entry_views(out@) =~= before.insert(p as int, ev));
        }
        i = i + 1;
    }
    proof {
        assert(src.take(entries@.len() as int) =~= src);
    }
    out
}


/// How many entries have the key `k`.
pub open spec fn key_count(s: Seq<EntryView>, k: Seq<char>) -> nat {
    s.filter(key_is(k)).len()
}

/// `k` is the least key that occurs more than once.
pub open spec fn is_least_duplicate(s: Seq<EntryView>, k: Seq<char>) -> bool {
    &&& key_count(s, k) >= 2
    &&& forall|k2: Seq<char>| key_count(s, k2) >= 2 ==> !key_less(k2, k)
}

/// Some key occurs more than once.
pub open spec fn has_duplicate_key(s: Seq<EntryView>) -> bool {
    exists|k: Seq<char>| key_count(s, k) >= 2
}

proof fn lemma_count_one(s: Seq<EntryView>, k: Seq<char>)
    ensures
        key_count(s, k) >= 1 <==> exists|a: int| 0 <= a < s.len() && (#[trigger] s[a]).0 == k,
    decreases s.len(),
{
    if s.len() > 0 {
        let t = s.drop_last();
        lemma_count_one(t, k);
        assert(t.push(s.last()) =~= s);
        t.lemma_filter_push(s.last(), key_is(k));
        if exists|a: int| 0 <= a < s.len() && (#[trigger] s[a]).0 == k {
            let a = choose|a: int| 0 <= a < s.len() && (#[trigger] s[a]).0 == k;
            if a < t.len() {
                assert(t[a] == s[a]);
            }
        }
        if exists|a: int| 0 <= a < t.len() && (#[trigger] t[a]).0 == k {
            let a = choose|a: int| 0 <= a < t.len() && (#[trigger] t[a]).0 == k;
            assert(s[a] == t[a]);
        }
    } else {
        assert(s.filter(key_is(k)) =~= s) by {
            reveal(Seq::filter);
        }
    }
}

proof fn lemma_count_two(s: Seq<EntryView>, k: Seq<char>)
    ensures
        key_count(s, k) >= 2 <==> exists|a: int, b: int|
            0 <= a < b < s.len() && (#[trigger] s[a]).0 == k && (#[trigger] s[b]).0 == k,
    decreases s.len(),
{
    if s.len() > 0 {
        let t = s.drop_last();
        lemma_count_two(t, k);
        lemma_count_one(t, k);
        assert(t.push(s.last()) =~= s);
        t.lemma_filter_push(s.last(), key_is(k));
        if exists|a: int, b: int|
            0 <= a < b < s.len() && (#[trigger] s[a]).0 == k && (#[trigger] s[b]).0 == k {
            let (a, b) = choose|a: int, b: int|
                0 <= a < b < s.len() && (#[trigger] s[a]).0 == k && (#[trigger] s[b]).0 == k;
            assert(t[a] == s[a]);
            if b < t.len() {
                assert(t[b] == s[b]);
            }
        }
        if exists|a: int, b: int|
            0 <= a < b < t.len() && (#[trigger] t[a]).0 == k && (#[trigger] t[b]).0 == k {
            let (a, b) = choose|a: int, b: int|
                0 <= a < b < t.len() && (#[trigger] t[a]).0 == k && (#[trigger] t[b]).0 == k;
            assert(s[a] == t[a] && s[b] == t[b]);
        }
        if key_count(t, k) >= 1 && s.last().0 == k {
            let a = choose|a: int| 0 <= a < t.len() && (#[trigger] t[a]).0 == k;
            assert(s[a] == t[a]);
            assert(s[s.len() - 1] == s.last());
        }
    } else {
        assert(s.filter(key_is(k)) =~= s) by {
            reveal(Seq::filter);
        }
    }
}

/// In a sorted sequence, two entries with one key have that key next to
/// each other at the first of them.
proof fn lemma_sorted_neighbour(s: Seq<EntryView>, a: int, b: int)
    requires
        keys_sorted(s),
        0 <= a < b < s.len(),
        s[a].0 == s[b].0,
    ensures
        s[a].0 == s[a + 1].0,
{
    if a + 1 < b {
        assert(!key_less(s[b].0, s[a + 1].0));
    }
    assert(!key_less(s[a + 1].0, s[a].0));
    lemma_key_less_antisymmetric(s[a].0, s[a + 1].0);
}

/// A finished block lists its entries in strictly increasing key order:
/// sorted by key, and each key once.
pub proof fn lemma_finished_keys_increase(r: Seq<EntryView>, s: Seq<EntryView>)
    requires
        stable_sort_of(r, s),
        !has_duplicate_key(s),
    ensures
        forall|a: int, b: int| 0 <= a < b < r.len() ==> key_less(#[trigger] r[a].0, #[trigger] r[b].0),
{
    assert forall|a: int, b: int| 0 <= a < b < r.len() implies key_less(
        #[trigger] r[a].0,
        #[trigger] r[b].0,
    ) by {
        let k = r[a].0;
        if r[b].0 == k {
            lemma_count_two(r, k);
            assert(r.filter(key_is(k)) == s.filter(key_is(k)));
            assert(key_count(s, k) >= 2);
            assert(has_duplicate_key(s));
        } else {
            lemma_key_less_total(r[a].0, r[b].0);
        }
    }
}

/// The entries sorted by key, or the error naming the least key that occurs
/// more than once.
pub fn finish(entries: Vec<ConfigEntry>) -> (r: Result<Vec<ConfigEntry>, ConfigValueError>)
    ensures
        match r {
            Ok(v) => !has_duplicate_key(entry_views(entries@)) && stable_sort_of(
                entry_views(v@),
                entry_views(entries@),
            ),
            Err(e) => exists|k: Seq<char>|
                is_least_duplicate(entry_views(entries@), k) && value_error_message(e)
                    == "duplicate config key "@ + k,
        },
{
    let ghost src = entry_views(entries@);
    let sorted = sort_entries(&entries);
    let ghost out = entry_views(sorted@);
    let mut i: usize = 0;
    while i < sorted.len() && sorted.len() - i > 1
        invariant
            out == entry_views(sorted@),
            src == entry_views(entries@),
            stable_sort_of(out, src),
            i <= sorted@.len(),
            forall|a: int| 0 <= a < i && a + 1 < out.len() ==> (#[trigger] out[a]).0 != out[a + 1].0,
        decreases sorted@.len() - i,
    {
        if str_eq(sorted[i].key.as_str(), sorted[i + 1].key.as_str()) {
            let ghost k = out[i as int].0;
            proof {
                assert(out[i as int].0 == out[i + 1].0);
                lemma_count_two(out, k);
                assert(key_count(src, k) == key_count(out, k));
                assert forall|k2: Seq<char>| key_count(src, k2) >= 2 implies !key_less(k2, k) by {
                    assert(key_count(src, k2) == key_count(out, k2));
                    lemma_count_two(out, k2);
                    let (a, b) = choose|a: int, b: int|
                        0 <= a < b < out.len() && (#[trigger] out[a]).0 == k2 && (#[trigger] out[b]).0
                            == k2;
                    lemma_sorted_neighbour(out, a, b);
                    if a > i {
                        assert(!key_less(out[a].0, out[i as int].0));
                    } else if a < i {
                        assert(out[a].0 != out[a + 1].0);
                    } else {
                        lemma_key_less_irreflexive(k);
                    }
                }
            }
            proof {
                reveal_strlit("duplicate config key ");
            }
            let message = concat("duplicate config key ", sorted[i].key.as_str());
            assert(sorted@[i as int].key@ == k);
            assert(is_least_duplicate(src, k));
            return Err(ConfigValueError(message));
        }
        i = i + 1;
    }
    proof {
        assert forall|k: Seq<char>| !(key_count(src, k) >= 2) by {
            assert(key_count(src, k) == key_count(out, k));
            lemma_count_two(out, k);
            if key_count(out, k) >= 2 {
                let (a, b) = choose|a: int, b: int|
                    0 <= a < b < out.len() && (#[trigger] out[a]).0 == k && (#[trigger] out[b]).0 == k;
                lemma_sorted_neighbour(out, a, b);
            }
        }
    }
    Ok(sorted)
}


/// All entries of the four option groups, in order, then finished.
pub fn collect_config_entries(
    printer: Vec<ConfigEntry>,
    process: Vec<ConfigEntry>,
    filament: Vec<ConfigEntry>,
    project: Vec<ConfigEntry>,
) -> (r: Result<Vec<ConfigEntry>, ConfigValueError>)
    ensures
        ({
            let all = entry_views(printer@ + process@ + filament@ + project@);
            match r {
                Ok(v) => !has_duplicate_key(all) && stable_sort_of(entry_views(v@), all),
                Err(e) => exists|k: Seq<char>|
                    is_least_duplicate(all, k) && value_error_message(e) == "duplicate config key "@
                        + k,
            }
        }),
{
    let mut entries = printer;
    let mut process = process;
    let mut filament = filament;
    let mut project = project;
    entries.append(&mut process);
    entries.append(&mut filament);
    entries.append(&mut project);
    finish(entries)
}

/// The error for an option group that is not a map.
pub fn group_error() -> (e: ConfigValueError)
    ensures
        value_error_message(e) == "config option group must serialize as a map"@,
{
    ConfigValueError(owned("config option group must serialize as a map"))
}

/// The entries of one option group, written key by value.
pub struct ConfigMap {
    pub entries: Vec<ConfigEntry>,
    pub pending_key: Option<String>,
}

/// The key still waiting for its value.
pub open spec fn pending_view(p: Option<String>) -> Option<Seq<char>> {
    match p {
        Some(k) => Some(k@),
        None => None,
    }
}

impl ConfigMap {
    /// An empty map.
    pub fn new() -> (r: Self)
        ensures
            r.entries@.len() == 0,
            r.pending_key is None,
    {
        ConfigMap { entries: Vec::new(), pending_key: None }
    }

    /// Takes the next key, as its serialization came out: an error while a
    /// key waits for its value, the serialization's own error, an error for
    /// a `nil` key; else the key now waits.
    pub fn serialize_key(&mut self, key: Result<SerializedConfigValue, ConfigValueError>) -> (r:
        Result<(), ConfigValueError>)
        ensures
            entry_views(final(self).entries@) == entry_views(old(self).entries@),
            old(self).pending_key is Some ==> (r matches Err(e) && value_error_message(e)
                == "config map key is missing its value"@ && pending_view(final(self).pending_key)
                == pending_view(old(self).pending_key)),
            old(self).pending_key is None ==> match key {
                Err(e0) => r matches Err(e) && value_error_message(e) == value_error_message(e0)
                    && final(self).pending_key is None,
                Ok(v) => if v.is_nil {
                    r matches Err(e) && value_error_message(e) == "config map key cannot be nil"@
                        && final(self).pending_key is None
                } else {
                    r is Ok && pending_view(final(self).pending_key) == Some(v.token@)
                },
            },
    {
        if self.pending_key.is_some() {
            return Err(ConfigValueError(owned("config map key is missing its value")));
        }
        let key = match key {
            Ok(k) => k,
            Err(e) => return Err(e),
        };
        if key.is_nil {
            return Err(ConfigValueError(owned("config map key cannot be nil")));
        }
        self.pending_key = Some(key.token);
        Ok(())
    }

    /// Takes the value of the waiting key, as its serialization came out:
    /// an error when no key waits; else the key stops waiting, and the
    /// serialization's error is passed on or the entry is added.
    pub fn serialize_value(&mut self, value: Result<SerializedConfigValue, ConfigValueError>) -> (r:
        Result<(), ConfigValueError>)
        ensures
            final(self).pending_key is None,
            match old(self).pending_key {
                None => r matches Err(e) && value_error_message(e)
                    == "config map value is missing its key"@ && entry_views(final(self).entries@)
                    == entry_views(old(self).entries@),
                Some(k) => match value {
                    Err(e0) => r matches Err(e) && value_error_message(e) == value_error_message(e0)
                        && entry_views(final(self).entries@) == entry_views(old(self).entries@),
                    Ok(v) => r is Ok && entry_views(final(self).entries@) == entry_views(
                        old(self).entries@,
                    ).push((k@, v.token@, v.is_nil)),
                },
            },
    {
        let key = match self.pending_key.take() {
            Some(k) => k,
            None => return Err(ConfigValueError(owned("config map value is missing its key"))),
        };
        let value = match value {
            Ok(v) => v,
            Err(e) => return Err(e),
        };
        let ghost before = entry_views(self.entries@);
        self.entries.push(ConfigEntry { key, token: value.token, is_nil: value.is_nil });
        assert(entry_views(self.entries@) =~= before.push((key@, value.token@, value.is_nil)));
        Ok(())
    }

    /// The entries, or an error when a key still waits for its value.
    pub fn end(self) -> (r: Result<Vec<ConfigEntry>, ConfigValueError>)
        ensures
            match self.pending_key {
                Some(_) => r matches Err(e) && value_error_message(e)
                    == "config map key is missing its value"@,
                None => r matches Ok(v) && entry_views(v@) == entry_views(self.entries@),
            },
    {
        if self.pending_key.is_some() {
            return Err(ConfigValueError(owned("config map key is missing its value")));
        }
        Ok(self.entries)
    }
}

} // verus!
