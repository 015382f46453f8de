//! A map from option keys to JSON values, each key at most once, its
//! entries kept in ascending key order.
use vstd::prelude::*;
use crate::json::{Json, JsonValue};
use crate::text::str_eq;
use crate::key_order::{key_less, key_lt, lemma_key_less_irreflexive, lemma_key_less_transitive,
    lemma_key_less_total};

verus! {

/// The map that a sequence of entries with distinct keys describes.
pub open spec fn map_of(s: Seq<(String, JsonValue)>) -> Map<Seq<char>, Json>
    decreases s.len(),
{
    if s.len() == 0 {
        Map::empty()
    } else {
        map_of(s.drop_last()).insert(s.last().0@, s.last().1.model())
    }
}

/// No key occurs twice.
pub open spec fn distinct_keys(s: Seq<(String, JsonValue)>) -> bool {
    forall|i: int, j: int|
        #![trigger s[i], s[j]]
        0 <= i < s.len() && 0 <= j < s.len() && i != j ==> s[i].0@ != s[j].0@
}

/// The keys ascend strictly in code-point order.
pub open spec fn keys_ascending(s: Seq<(String, JsonValue)>) -> bool {
    forall|i: int, j: int|
        #![trigger s[i], s[j]]
        0 <= i < j < s.len() ==> key_less(s[i].0@, s[j].0@)
}

/// Strictly ascending keys are distinct.
proof fn lemma_ascending_distinct(s: Seq<(String, JsonValue)>)
    requires
        keys_ascending(s),
    ensures
        distinct_keys(s),
{
    assert forall|i: int, j: int|
        #![trigger s[i], s[j]]
        0 <= i < s.len() && 0 <= j < s.len() && i != j implies s[i].0@ != s[j].0@ by {
        if s[i].0@ == s[j].0@ {
            lemma_key_less_irreflexive(s[i].0@);
            if i < j {
                assert(key_less(s[i].0@, s[j].0@));
            } else {
                assert(key_less(s[j].0@, s[i].0@));
            }
        }
    }
}

/// Two sequences with distinct keys that hold the same entries by key
/// describe the same map.
proof fn lemma_map_of_same_entries(s: Seq<(String, JsonValue)>, t: Seq<(String, JsonValue)>, m: Map<Seq<char>, Json>)
    requires
        distinct_keys(t),
        forall|k: Seq<char>| m.contains_key(k) <==> exists|i: int| 0 <= i < t.len() && #[trigger] t[i].0@ == k,
        forall|i: int| 0 <= i < t.len() ==> m.contains_key(#[trigger] t[i].0@) && m[t[i].0@] == t[i].1.model(),
    ensures
        map_of(t) == m,
{
    assert forall|k: Seq<char>| map_of(t).contains_key(k) <==> m.contains_key(k) by {
        lemma_map_of_domain(t, k);
    }
    assert forall|k: Seq<char>| map_of(t).contains_key(k) implies map_of(t)[k] == m[k] by {
        lemma_map_of_domain(t, k);
        let i = choose|i: int| 0 <= i < t.len() && #[trigger] t[i].0@ == k;
        lemma_map_of_value(t, i);
    }
    assert(map_of(t) =~= m);
}

/// Inserting an entry with a new key at a place where the keys still
/// ascend gives the map with that key added.
proof fn lemma_map_of_insert_at(s: Seq<(String, JsonValue)>, p: int, e: (String, JsonValue))
    requires
        keys_ascending(s),
        0 <= p <= s.len(),
        forall|j: int| 0 <= j < p ==> key_less(#[trigger] s[j].0@, e.0@),
        forall|j: int| p <= j < s.len() ==> key_less(e.0@, #[trigger] s[j].0@),
    ensures
        keys_ascending(s.insert(p, e)),
        distinct_keys(s.insert(p, e)),
        map_of(s.insert(p, e)) == map_of(s).insert(e.0@, e.1.model()),
{
    let t = s.insert(p, e);
    assert forall|i: int, j: int|
        #![trigger t[i], t[j]]
        0 <= i < j < t.len() implies key_less(t[i].0@, t[j].0@) by {
        if j < p {
            assert(t[i] == s[i] && t[j] == s[j]);
        } else if j == p {
            assert(t[i] == s[i] && t[j] == e);
        } else if i < p {
            assert(t[i] == s[i] && t[j] == s[j - 1]);
        } else if i == p {
            assert(t[i] == e && t[j] == s[j - 1]);
        } else {
            assert(t[i] == s[i - 1] && t[j] == s[j - 1]);
        }
    }
    lemma_ascending_distinct(s);
    lemma_ascending_distinct(t);
    let m = map_of(s).insert(e.0@, e.1.model());
    assert forall|k: Seq<char>| m.contains_key(k) <==> exists|i: int| 0 <= i < t.len() && #[trigger] t[i].0@ == k by {
        lemma_map_of_domain(s, k);
        if m.contains_key(k) {
            if k == e.0@ {
                assert(t[p].0@ == k);
            } else {
                let i = choose|i: int| 0 <= i < s.len() && #[trigger] s[i].0@ == k;
                if i < p {
                    assert(t[i] == s[i]);
                } else {
                    assert(t[i + 1] == s[i]);
                }
            }
        }
        if exists|i: int| 0 <= i < t.len() && #[trigger] t[i].0@ == k {
            let i = choose|i: int| 0 <= i < t.len() && #[trigger] t[i].0@ == k;
            if i < p {
                assert(s[i] == t[i]);
            } else if i > p {
                assert(s[i - 1] == t[i]);
            }
        }
    }
    assert forall|i: int| 0 <= i < t.len() implies m.contains_key(#[trigger] t[i].0@) && m[t[i].0@]
        == t[i].1.model() by {
        if i == p {
            assert(t[i] == e);
        } else {
            let si = if i < p { i } else { i - 1 };
            assert(t[i] == s[si]);
            lemma_map_of_value(s, si);
            if s[si].0@ == e.0@ {
                if si < p {
                    lemma_key_less_irreflexive(e.0@);
                } else {
                    lemma_key_less_irreflexive(e.0@);
                }
            }
        }
    }
    lemma_map_of_same_entries(s, t, m);
}

pub proof fn lemma_map_of_domain(s: Seq<(String, JsonValue)>, k: Seq<char>)
    ensures
        map_of(s).contains_key(k) <==> exists|i: int| 0 <= i < s.len() && #[trigger] s[i].0@ == k,
    decreases s.len(),
{
    if s.len() > 0 {
        lemma_map_of_domain(s.drop_last(), k);
        if map_of(s.drop_last()).contains_key(k) {
            let i = choose|i: int| 0 <= i < s.drop_last().len() && #[trigger] s.drop_last()[i].0@ == k;
            assert(s[i].0@ == k);
        }
        if exists|i: int| 0 <= i < s.len() && #[trigger] s[i].0@ == k {
            let i = choose|i: int| 0 <= i < s.len() && #[trigger] s[i].0@ == k;
            if i < s.len() - 1 {
                assert(s.drop_last()[i].0@ == k);
            }
        }
    }
}

pub proof fn lemma_map_of_value(s: Seq<(String, JsonValue)>, i: int)
    requires
        distinct_keys(s),
        0 <= i < s.len(),
    ensures
        map_of(s).contains_key(s[i].0@),
        map_of(s)[s[i].0@] == s[i].1.model(),
    decreases s.len(),
{
    if i < s.len() - 1 {
        let t = s.drop_last();
        assert(distinct_keys(t)) by {
            assert forall|a: int, b: int|
                #![trigger t[a], t[b]]
                0 <= a < t.len() && 0 <= b < t.len() && a != b implies t[a].0@ != t[b].0@ by {
                assert(t[a] == s[a] && t[b] == s[b]);
            }
        }
        lemma_map_of_value(t, i);
        assert(s[i].0@ != s[s.len() - 1].0@);
    }
}

pub proof fn lemma_map_of_update(s: Seq<(String, JsonValue)>, i: int, e: (String, JsonValue))
    requires
        distinct_keys(s),
        0 <= i < s.len(),
        e.0@ == s[i].0@,
    ensures
        map_of(s.update(i, e)) == map_of(s).insert(e.0@, e.1.model()),
        distinct_keys(s.update(i, e)),
    decreases s.len(),
{
    let u = s.update(i, e);
    assert(distinct_keys(u)) by {
        assert forall|a: int, b: int|
            #![trigger u[a], u[b]]
            0 <= a < u.len() && 0 <= b < u.len() && a != b implies u[a].0@ != u[b].0@ by {
            assert(s[a].0@ != s[b].0@);
        }
    }
    if i == s.len() - 1 {
        assert(u.drop_last() =~= s.drop_last());
        assert(map_of(u) =~= map_of(s).insert(e.0@, e.1.model()));
    } else {
        let t = s.drop_last();
        assert(distinct_keys(t)) by {
            assert forall|a: int, b: int|
                #![trigger t[a], t[b]]
                0 <= a < t.len() && 0 <= b < t.len() && a != b implies t[a].0@ != t[b].0@ by {
                assert(t[a] == s[a] && t[b] == s[b]);
            }
        }
        lemma_map_of_update(t, i, e);
        assert(u.drop_last() =~= t.update(i, e));
        assert(s.last().0@ != e.0@);
        assert(map_of(u) =~= map_of(s).insert(e.0@, e.1.model()));
    }
}

pub proof fn lemma_map_of_remove(s: Seq<(String, JsonValue)>, i: int)
    requires
        distinct_keys(s),
        0 <= i < s.len(),
    ensures
        map_of(s.remove(i)) == map_of(s).remove(s[i].0@),
        distinct_keys(s.remove(i)),
    decreases s.len(),
{
    let r = s.remove(i);
    assert(distinct_keys(r)) by {
        assert forall|a: int, b: int|
            #![trigger r[a], r[b]]
            0 <= a < r.len() && 0 <= b < r.len() && a != b implies r[a].0@ != r[b].0@ by {
            let sa = if a < i { a } else { a + 1 };
            let sb = if b < i { b } else { b + 1 };
            assert(r[a] == s[sa] && r[b] == s[sb]);
        }
    }
    let k = s[i].0@;
    if i == s.len() - 1 {
        assert(r =~= s.drop_last());
        lemma_map_of_domain(s.drop_last(), k);
        assert forall|j: int| 0 <= j < s.drop_last().len() implies #[trigger] s.drop_last()[j].0@ != k by {
            assert(s[j].0@ != s[i].0@);
        }
        assert(map_of(r) =~= map_of(s).remove(k));
    } else {
        let t = s.drop_last();
        assert(distinct_keys(t)) by {
            assert forall|a: int, b: int|
                #![trigger t[a], t[b]]
                0 <= a < t.len() && 0 <= b < t.len() && a != b implies t[a].0@ != t[b].0@ by {
                assert(t[a] == s[a] && t[b] == s[b]);
            }
        }
        lemma_map_of_remove(t, i);
        assert(r.drop_last() =~= t.remove(i));
        assert(r.last() == s.last());
        assert(s.last().0@ != k);
        assert(map_of(r) =~= map_of(s).remove(k));
    }
}

/// A map from option keys to JSON values.
pub struct OptionMap {
    entries: Vec<(String, JsonValue)>,
}

impl View for OptionMap {
    type V = Map<Seq<char>, Json>;

    closed spec fn view(&self) -> Map<Seq<char>, Json> {
        map_of(self.entries@)
    }
}

impl OptionMap {
    #[verifier::type_invariant]
    closed spec fn keys_in_order(self) -> bool {
        &&& distinct_keys(self.entries@)
        &&& keys_ascending(self.entries@)
    }

    /// An empty map.
    pub fn new() -> (r: OptionMap)
        ensures
            r@ == Map::<Seq<char>, Json>::empty(),
    {
        let r = OptionMap { entries: Vec::new() };
        assert(r@ == map_of(Seq::empty()));
        r
    }

    /// The position of `key`, if present.
    fn find(&self, key: &str) -> (r: Option<usize>)
        ensures
            match r {
                Some(i) => i < self.entries@.len() && self.entries@[i as int].0@ == key@,
                None => forall|i: int|
                    0 <= i < self.entries@.len() ==> #[trigger] self.entries@[i].0@ != key@,
            },
    {
        let mut i: usize = 0;
        while i < self.entries.len()
            invariant
                i <= self.entries@.len(),
                forall|j: int| 0 <= j < i ==> #[trigger] self.entries@[j].0@ != key@,
            decreases self.entries@.len() - i,
        {
            if str_eq(self.entries[i].0.as_str(), key) {
                return Some(i);
            }
            i = i + 1;
        }
        None
    }

    /// The value stored under `key`.
    pub fn get(&self, key: &str) -> (r: Option<&JsonValue>)
        ensures
            r is Some <==> self@.contains_key(key@),
            r matches Some(v) ==> v.model() == self@[key@],
    {
        proof {
            use_type_invariant(self);
            lemma_map_of_domain(self.entries@, key@);
        }
        match self.find(key) {
            Some(i) => {
                proof {
                    lemma_map_of_value(self.entries@, i as int);
                }
                Some(&self.entries[i].1)
            },
            None => None,
        }
    }

    /// Whether `key` is present.
    pub fn contains_key(&self, key: &str) -> (r: bool)
        ensures
            r == self@.contains_key(key@),
    {
        proof {
            use_type_invariant(self);
            lemma_map_of_domain(self.entries@, key@);
        }
        self.find(key).is_some()
    }

    /// Stores `value` under `key`, replacing any earlier value.
    pub fn insert(&mut self, key: String, value: JsonValue)
        ensures
            final(self)@ == old(self)@.insert(key@, value.model()),
    {
        proof {
            use_type_invariant(&*self);
            lemma_map_of_domain(self.entries@, key@);
        }
        match self.find(key.as_str()) {
            Some(i) => {
                proof {
                    lemma_map_of_update(self.entries@, i as int, (key, value));
                    let u = self.entries@.update(i as int, (key, value));
                    assert forall|a: int, b: int|
                        #![trigger u[a], u[b]]
                        0 <= a < b < u.len() implies key_less(u[a].0@, u[b].0@) by {
                        assert(u[a].0@ == self.entries@[a].0@ && u[b].0@ == self.entries@[b].0@);
                    }
                }
                let mut entries: Vec<(String, JsonValue)> = Vec::new();
                std::mem::swap(&mut entries, &mut self.entries);
                entries.set(i, (key, value));
                self.entries = entries;
            },
            None => {
                let ghost old_entries = self.entries@;
                let mut p: usize = 0;
                while p < self.entries.len() && key_lt(self.entries[p].0.as_str(), key.as_str())
                    invariant
                        p <= self.entries@.len(),
                        self.entries@ == old_entries,
                        keys_ascending(old_entries),
                        forall|j: int| 0 <= j < p ==> key_less(#[trigger] old_entries[j].0@, key@),
                    decreases self.entries@.len() - p,
                {
                    p = p + 1;
                }
                proof {
                    if p < old_entries.len() {
                        assert(old_entries[p as int].0@ != key@);
                        lemma_key_less_total(old_entries[p as int].0@, key@);
                        assert forall|j: int| p <= j < old_entries.len() implies key_less(
                            key@,
                            #[trigger] old_entries[j].0@,
                        ) by {
                            if j > p {
                                assert(key_less(old_entries[p as int].0@, old_entries[j].0@));
                                lemma_key_less_transitive(key@, old_entries[p as int].0@, old_entries[j].0@);
                            }
                        }
                    }
                    lemma_map_of_insert_at(old_entries, p as int, (key, value));
                }
                let mut entries: Vec<(String, JsonValue)> = Vec::new();
                std::mem::swap(&mut entries, &mut self.entries);
                entries.insert(p, (key, value));
                self.entries = entries;
            },
        }
    }

    /// Removes `key` and its value, if present.
    pub fn remove(&mut self, key: &str)
        ensures
            final(self)@ == old(self)@.remove(key@),
    {
        proof {
            use_type_invariant(&*self);
            lemma_map_of_domain(self.entries@, key@);
        }
        match self.find(key) {
            Some(i) => {
                proof {
                    lemma_map_of_remove(self.entries@, i as int);
                    let r = self.entries@.remove(i as int);
                    assert forall|a: int, b: int|
                        #![trigger r[a], r[b]]
                        0 <= a < b < r.len() implies key_less(r[a].0@, r[b].0@) by {
                        let sa = if a < i { a } else { a + 1 };
                        let sb = if b < i { b } else { b + 1 };
                        assert(r[a] == self.entries@[sa] && r[b] == self.entries@[sb]);
                    }
                }
                let mut entries: Vec<(String, JsonValue)> = Vec::new();
                std::mem::swap(&mut entries, &mut self.entries);
                entries.remove(i);
                self.entries = entries;
            },
            None => {
                assert(old(self)@.remove(key@) =~= old(self)@);
            },
        }
    }

    /// The number of keys.
    pub fn len(&self) -> (r: usize)
        ensures
            r == self@.len(),
    {
        proof {
            use_type_invariant(self);
            lemma_map_of_len(self.entries@);
        }
        self.entries.len()
    }

    /// The entries, each key once, in ascending key order.
    pub fn entries(&self) -> (r: &Vec<(String, JsonValue)>)
        ensures
            map_of(r@) == self@,
            distinct_keys(r@),
            keys_ascending(r@),
    {
        proof {
            use_type_invariant(self);
        }
        &self.entries
    }
}

pub proof fn lemma_map_of_len(s: Seq<(String, JsonValue)>)
    requires
        distinct_keys(s),
    ensures
        map_of(s).dom().finite(),
        map_of(s).len() == s.len(),
    decreases s.len(),
{
    if s.len() > 0 {
        let t = s.drop_last();
        assert(distinct_keys(t)) by {
            assert forall|a: int, b: int|
                #![trigger t[a], t[b]]
                0 <= a < t.len() && 0 <= b < t.len() && a != b implies t[a].0@ != t[b].0@ by {
                assert(t[a] == s[a] && t[b] == s[b]);
            }
        }
        lemma_map_of_len(t);
        lemma_map_of_domain(t, s.last().0@);
        assert forall|j: int| 0 <= j < t.len() implies #[trigger] t[j].0@ != s.last().0@ by {
            assert(s[j].0@ != s[s.len() - 1].0@);
        }
    }
}


/// A value read back after it was written is the value written; the other
/// keys keep their values; a removed key is gone and the others stay.
pub proof fn lemma_read_after_write(
    m: Map<Seq<char>, Json>,
    key: Seq<char>,
    value: Json,
    other: Seq<char>,
)
    requires
        other != key,
    ensures
        m.insert(key, value).contains_key(key),
        m.insert(key, value)[key] == value,
        m.insert(key, value).contains_key(other) == m.contains_key(other),
        m.contains_key(other) ==> m.insert(key, value)[other] == m[other],
        !m.remove(key).contains_key(key),
        m.remove(key).contains_key(other) == m.contains_key(other),
        m.contains_key(other) ==> m.remove(key)[other] == m[other],
{
}

} // verus!
