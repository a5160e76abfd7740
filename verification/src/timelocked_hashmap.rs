//! A timelocked hashmap: a map that remembers when (and in which order) each key was inserted.

use linked_hash_map::LinkedHashMap;
use std::collections::HashMap;
use vstd::prelude::*;

verus! {

broadcast use vstd::std_specs::hash::group_hash_axioms;

/// `LinkedHashMap` from the `linked-hash-map` crate, which keeps its entries in insertion order.
#[verifier::external_type_specification]
#[verifier::external_body]
#[verifier::reject_recursive_types(K)]
#[verifier::reject_recursive_types(V)]
#[verifier::reject_recursive_types(S)]
pub struct ExLinkedHashMap<K, V, S>(LinkedHashMap<K, V, S>);

/// The entries of a `LinkedHashMap<u64, u64>`, in the order in which its iterators visit them
/// (least recently inserted first).
pub uninterp spec fn linked_entries(m: LinkedHashMap<u64, u64>) -> Seq<(u64, u64)>;

/// Whether some entry of `s` has the key `k`.
pub open spec fn has_key(s: Seq<(u64, u64)>, k: u64) -> bool {
    exists|i: int| 0 <= i < s.len() && (#[trigger] s[i]).0 == k
}

/// The position of the entry with key `k` in `s` (meaningful when `has_key(s, k)`).
pub open spec fn key_index(s: Seq<(u64, u64)>, k: u64) -> int {
    choose|i: int| 0 <= i < s.len() && (#[trigger] s[i]).0 == k
}

/// `s` with the entry for key `k` taken out, if there is one.
pub open spec fn without_key(s: Seq<(u64, u64)>, k: u64) -> Seq<(u64, u64)> {
    if has_key(s, k) {
        s.remove(key_index(s, k))
    } else {
        s
    }
}

/// The value stored with key `k` in `s`, if any.
pub open spec fn lookup(s: Seq<(u64, u64)>, k: u64) -> Option<u64> {
    if has_key(s, k) {
        Some(s[key_index(s, k)].1)
    } else {
        None
    }
}

/// No key occurs twice in `s`.
pub open spec fn distinct_keys(s: Seq<(u64, u64)>) -> bool {
    forall|i: int, j: int|
        0 <= i < s.len() && 0 <= j < s.len() && i != j ==> (#[trigger] s[i]).0 != (#[trigger] s[j]).0
}

/// The second components of `s` never decrease from front to back.
pub open spec fn sorted_times(s: Seq<(u64, u64)>) -> bool {
    forall|i: int, j: int| 0 <= i <= j < s.len() ==> (#[trigger] s[i]).1 <= (#[trigger] s[j]).1
}

/// The keys of `s`, in order.
pub open spec fn keys_of(s: Seq<(u64, u64)>) -> Seq<u64> {
    s.map_values(|e: (u64, u64)| e.0)
}

/// `LinkedHashMap::new`: an empty map.
#[verifier::external_body]
fn linked_new() -> (m: LinkedHashMap<u64, u64>)
    ensures
        linked_entries(m) == Seq::<(u64, u64)>::empty(),
{
    LinkedHashMap::new()
}

/// `LinkedHashMap::contains_key`: whether some entry has the key.
#[verifier::external_body]
fn linked_contains_key(m: &LinkedHashMap<u64, u64>, k: &u64) -> (b: bool)
    ensures
        b == has_key(linked_entries(*m), *k),
{
    m.contains_key(k)
}

/// `LinkedHashMap::insert`: a new key is appended at the back; an existing key gets the new
/// value and is moved to the back (detach, then attach), and its old value is returned.
#[verifier::external_body]
fn linked_insert(m: &mut LinkedHashMap<u64, u64>, k: u64, v: u64) -> (r: Option<u64>)
    ensures
        linked_entries(*final(m)) == without_key(linked_entries(*old(m)), k).push((k, v)),
        r == lookup(linked_entries(*old(m)), k),
{
    m.insert(k, v)
}

/// `LinkedHashMap::remove`: takes the entry with the key out, returning its value.
#[verifier::external_body]
fn linked_remove(m: &mut LinkedHashMap<u64, u64>, k: &u64) -> (r: Option<u64>)
    ensures
        linked_entries(*final(m)) == without_key(linked_entries(*old(m)), *k),
        r == lookup(linked_entries(*old(m)), *k),
{
    m.remove(k)
}

/// `LinkedHashMap::front`: the least recently inserted entry, copied out.
#[verifier::external_body]
fn linked_front(m: &LinkedHashMap<u64, u64>) -> (r: Option<(u64, u64)>)
    ensures
        linked_entries(*m).len() == 0 ==> r is None,
        linked_entries(*m).len() > 0 ==> r == Some(linked_entries(*m)[0]),
{
    m.front().map(|(k, v)| (*k, *v))
}

/// `LinkedHashMap::pop_front`: removes and returns the least recently inserted entry.
#[verifier::external_body]
fn linked_pop_front(m: &mut LinkedHashMap<u64, u64>) -> (r: Option<(u64, u64)>)
    ensures
        linked_entries(*old(m)).len() == 0 ==> r is None && linked_entries(*final(m))
            == linked_entries(*old(m)),
        linked_entries(*old(m)).len() > 0 ==> r == Some(linked_entries(*old(m))[0])
            && linked_entries(*final(m)) == linked_entries(*old(m)).drop_first(),
{
    m.pop_front()
}

/// `LinkedHashMap::keys`: the keys in iteration order, copied into a vector.
#[verifier::external_body]
fn linked_keys(m: &LinkedHashMap<u64, u64>) -> (r: Vec<u64>)
    ensures
        r@ == keys_of(linked_entries(*m)),
{
    m.keys().copied().collect()
}

/// Facts about taking one key out of a sequence whose keys are distinct.
pub proof fn lemma_without_key(s: Seq<(u64, u64)>, k: u64)
    requires
        distinct_keys(s),
    ensures
        distinct_keys(without_key(s, k)),
        !has_key(without_key(s, k), k),
        forall|k2: u64| k2 != k ==> has_key(without_key(s, k), k2) == has_key(s, k2),
        sorted_times(s) ==> sorted_times(without_key(s, k)),
        forall|i: int|
            0 <= i < without_key(s, k).len() ==> s.contains(#[trigger] without_key(s, k)[i]),
        has_key(s, k) ==> without_key(s, k).len() == s.len() - 1,
        !has_key(s, k) ==> without_key(s, k) == s,
{
    if has_key(s, k) {
        let idx = key_index(s, k);
        let r = s.remove(idx);
        s.remove_ensures(idx);
        assert forall|i: int| 0 <= i < r.len() implies s.contains(#[trigger] r[i]) by {
            if i < idx {
                assert(s[i] == r[i]);
            } else {
                assert(s[i + 1] == r[i]);
            }
        }
        assert forall|k2: u64| k2 != k implies has_key(r, k2) == has_key(s, k2) by {
            if has_key(s, k2) {
                let j = choose|j: int| 0 <= j < s.len() && (#[trigger] s[j]).0 == k2;
                if j < idx {
                    assert(r[j].0 == k2);
                } else {
                    assert(j != idx);
                    assert(r[j - 1].0 == k2);
                }
            }
            if has_key(r, k2) {
                let j = choose|j: int| 0 <= j < r.len() && (#[trigger] r[j]).0 == k2;
                if j < idx {
                    assert(s[j].0 == k2);
                } else {
                    assert(s[j + 1].0 == k2);
                }
            }
        }
        assert forall|i: int, j: int|
            0 <= i < r.len() && 0 <= j < r.len() && i != j implies (#[trigger] r[i]).0 != (
            #[trigger] r[j]).0 by {
            let si = if i < idx { i } else { i + 1 };
            let sj = if j < idx { j } else { j + 1 };
            assert(r[i] == s[si]);
            assert(r[j] == s[sj]);
        }
        assert(without_key(s, k) == r);
        if has_key(r, k) {
            let j = choose|j: int| 0 <= j < r.len() && (#[trigger] r[j]).0 == k;
            let sj = if j < idx { j } else { j + 1 };
            assert(r[j] == s[sj]);
            assert(s[idx].0 == k);
        }
        if sorted_times(s) {
            assert forall|i: int, j: int| 0 <= i <= j < r.len() implies (#[trigger] r[i]).1 <= (
            #[trigger] r[j]).1 by {
                let si = if i < idx { i } else { i + 1 };
                let sj = if j < idx { j } else { j + 1 };
                assert(r[i] == s[si]);
                assert(r[j] == s[sj]);
            }
        }
    } else {
        assert forall|i: int| 0 <= i < without_key(s, k).len() implies s.contains(
            #[trigger] without_key(s, k)[i]) by {
            assert(s[i] == without_key(s, k)[i]);
        }
    }
}

/// A timed hashmap, which tracks the time items were inserted into the hashmap.
///
/// Keys are the numeric ids of the application (agent ids and request ids). Times are
/// supplied by the caller as milliseconds on a monotonic clock; the map never lets a stored
/// time run backwards, so the entries always come out oldest first.
#[derive(Debug)]
pub struct TimedHashMap<V> {
    /// keys with their insertion times, least recently inserted first
    order: LinkedHashMap<u64, u64>,
    /// the value stored under each key
    values: HashMap<u64, V>,
    /// the latest time that was stored
    clock: u64,
}

impl<V> TimedHashMap<V> {
    /// The (key, insertion time) pairs, least recently inserted first.
    pub closed spec fn entries(&self) -> Seq<(u64, u64)> {
        linked_entries(self.order)
    }

    /// The value stored under each key.
    pub closed spec fn value_map(&self) -> Map<u64, V> {
        self.values@
    }

    /// The latest insertion time recorded so far.
    pub closed spec fn clock(&self) -> u64 {
        self.clock
    }

    /// The keys, least recently inserted first.
    pub open spec fn key_seq(&self) -> Seq<u64> {
        keys_of(self.entries())
    }

    /// Well-formedness: keys are distinct, times never decrease front to back and never exceed
    /// the clock, and the values are stored under exactly the keys of the entries.
    pub open spec fn wf(&self) -> bool {
        &&& distinct_keys(self.entries())
        &&& sorted_times(self.entries())
        &&& forall|i: int|
            0 <= i < self.entries().len() ==> (#[trigger] self.entries()[i]).1 <= self.clock()
        &&& forall|k: u64| #[trigger]
            self.value_map().contains_key(k) <==> has_key(self.entries(), k)
    }

    /// Create a new, empty TimedHashMap
    pub fn new() -> (m: Self)
        ensures
            m.wf(),
            m.entries() == Seq::<(u64, u64)>::empty(),
            m.value_map() == Map::<u64, V>::empty(),
            m.clock() == 0,
    {
        TimedHashMap { order: linked_new(), values: HashMap::new(), clock: 0 }
    }

    /// The number of entries.
    pub fn len(&self) -> (n: usize)
        requires
            self.wf(),
        ensures
            n == self.entries().len(),
    {
        let ks = linked_keys(&self.order);
        ks.len()
    }

    /// Check whether the hashmap contains a key
    pub fn contains_key(&self, key: &u64) -> (b: bool)
        requires
            self.wf(),
        ensures
            b == has_key(self.entries(), *key),
            b == self.value_map().contains_key(*key),
    {
        linked_contains_key(&self.order, key)
    }

    /// Insert a key-value pair into the hashmap at time `now` (milliseconds). A key that was
    /// present already takes the new value and becomes the most recent entry. The time stored
    /// is `now`, or the latest time stored before if that is later.
    pub fn insert(&mut self, key: u64, value: V, now: u64)
        requires
            old(self).wf(),
        ensures
            final(self).wf(),
            final(self).clock() == (if now > old(self).clock() { now } else { old(self).clock() }),
            final(self).entries() == without_key(old(self).entries(), key).push(
                (key, final(self).clock()),
            ),
            final(self).value_map() == old(self).value_map().insert(key, value),
    {
        let t = if now > self.clock {
            now
        } else {
            self.clock
        };
        proof {
            lemma_without_key(self.entries(), key);
        }
        let ghost old_entries = self.entries();
        let ghost old_vals = self.value_map();
        self.clock = t;
        linked_insert(&mut self.order, key, t);
        self.values.insert(key, value);
        proof {
            let e = self.entries();
            let w = without_key(old_entries, key);
            assert(e == w.push((key, t)));
            assert forall|i: int| 0 <= i < e.len() implies (#[trigger] e[i]).1 <= t by {
                if i < w.len() {
                    assert(e[i] == w[i]);
                    assert(old_entries.contains(w[i]));
                }
            }
            assert forall|i: int, j: int|
                0 <= i < e.len() && 0 <= j < e.len() && i != j implies (#[trigger] e[i]).0 != (
                #[trigger] e[j]).0 by {
                if i < w.len() && j < w.len() {
                    assert(e[i] == w[i] && e[j] == w[j]);
                } else if i < w.len() {
                    assert(e[i] == w[i]);
                    assert(has_key(w, e[i].0));
                } else {
                    assert(e[j] == w[j]);
                    assert(has_key(w, e[j].0));
                }
            }
            assert forall|i: int, j: int| 0 <= i <= j < e.len() implies (#[trigger] e[i]).1 <= (
            #[trigger] e[j]).1 by {
                if j < w.len() {
                    assert(e[i] == w[i] && e[j] == w[j]);
                } else if i < w.len() {
                    assert(e[i] == w[i]);
                    assert(old_entries.contains(w[i]));
                }
            }
            assert forall|k: u64| #[trigger]
                self.value_map().contains_key(k) <==> has_key(e, k) by {
                if k == key {
                    assert(e[e.len() - 1].0 == key);
                } else {
                    assert(old_vals.contains_key(k) <==> has_key(old_entries, k));
                    if has_key(w, k) {
                        let j = choose|j: int| 0 <= j < w.len() && (#[trigger] w[j]).0 == k;
                        assert(e[j] == w[j]);
                    }
                    if has_key(e, k) {
                        let j = choose|j: int| 0 <= j < e.len() && (#[trigger] e[j]).0 == k;
                        assert(e[j] == w[j]);
                    }
                }
            }
        }
    }

    /// Remove a key-value pair from the hashmap
    pub fn remove(&mut self, key: &u64) -> (r: Option<V>)
        requires
            old(self).wf(),
        ensures
            final(self).wf(),
            final(self).clock() == old(self).clock(),
            final(self).entries() == without_key(old(self).entries(), *key),
            final(self).value_map() == old(self).value_map().remove(*key),
            match r {
                Some(v) => old(self).value_map().contains_key(*key) && v == old(self).value_map()[*key],
                None => !old(self).value_map().contains_key(*key),
            },
    {
        proof {
            lemma_without_key(self.entries(), *key);
        }
        let ghost old_entries = self.entries();
        let ghost old_vals = self.value_map();
        linked_remove(&mut self.order, key);
        let r = self.values.remove(key);
        proof {
            let e = self.entries();
            assert forall|i: int| 0 <= i < e.len() implies (#[trigger] e[i]).1 <= self.clock() by {
                assert(old_entries.contains(e[i]));
            }
            assert forall|k: u64| #[trigger]
                self.value_map().contains_key(k) <==> has_key(e, k) by {
                assert(old_vals.contains_key(k) <==> has_key(old_entries, k));
            }
        }
        r
    }

    /// Get all keys in the hashmap, least recently inserted first
    pub fn keys(&self) -> (r: Vec<u64>)
        requires
            self.wf(),
        ensures
            r@ == self.key_seq(),
    {
        linked_keys(&self.order)
    }

    /// Get all values in the hashmap, least recently inserted first
    pub fn values(&self) -> (r: Vec<&V>)
        requires
            self.wf(),
        ensures
            r.len() == self.entries().len(),
            forall|i: int| 0 <= i < r.len() ==> *(#[trigger] r[i]) == self.value_map()[self.entries()[i].0],
    {
        let ks = linked_keys(&self.order);
        let mut out: Vec<&V> = Vec::new();
        let mut i: usize = 0;
        while i < ks.len()
            invariant
                self.wf(),
                ks@ == self.key_seq(),
                i <= ks.len(),
                out.len() == i,
                forall|j: int| 0 <= j < i ==> *(#[trigger] out[j]) == self.value_map()[self.entries()[j].0],
            decreases ks.len() - i,
        {
            let k = ks[i];
            proof {
                assert(self.entries()[i as int].0 == k);
                assert(has_key(self.entries(), k));
                assert(self.value_map().contains_key(k));
            }
            let v = self.values.get(&k);
            match v {
                Some(v) => {
                    out.push(v);
                },
                None => {
                    proof {
                        assert(false);
                    }
                },
            }
            i = i + 1;
        }
        out
    }

    /// Get the first (least recently inserted) element of the hashmap, with its time
    pub fn front_with_time(&self) -> (r: Option<(u64, &V, u64)>)
        requires
            self.wf(),
        ensures
            self.entries().len() == 0 <==> r is None,
            match r {
                Some((k, v, t)) => (k, t) == self.entries()[0] && *v == self.value_map()[k],
                None => true,
            },
    {
        match linked_front(&self.order) {
            Some((k, t)) => {
                proof {
                    assert(self.entries()[0].0 == k);
                    assert(has_key(self.entries(), k));
                    assert(self.value_map().contains_key(k));
                }
                match self.values.get(&k) {
                    Some(v) => Some((k, v, t)),
                    None => {
                        proof {
                            assert(false);
                        }
                        None
                    },
                }
            },
            None => None,
        }
    }

    /// Remove the first (least recently inserted) element of the hashmap
    pub fn pop_front(&mut self) -> (r: Option<(u64, V, u64)>)
        requires
            old(self).wf(),
        ensures
            final(self).wf(),
            final(self).clock() == old(self).clock(),
            old(self).entries().len() == 0 <==> r is None,
            match r {
                Some((k, v, t)) => {
                    &&& (k, t) == old(self).entries()[0]
                    &&& v == old(self).value_map()[k]
                    &&& final(self).entries() == old(self).entries().drop_first()
                    &&& final(self).value_map() == old(self).value_map().remove(k)
                },
                None => final(self).entries() == old(self).entries() && final(self).value_map()
                    == old(self).value_map(),
            },
    {
        let ghost old_entries = self.entries();
        let ghost old_vals = self.value_map();
        match linked_pop_front(&mut self.order) {
            Some((k, t)) => {
                proof {
                    assert(old_entries[0].0 == k);
                    assert(has_key(old_entries, k));
                    assert(old_vals.contains_key(k));
                }
                match self.values.remove(&k) {
                    Some(v) => {
                        proof {
                            let e = self.entries();
                            assert(e == old_entries.drop_first());
                            assert forall|i: int| 0 <= i < e.len() implies (#[trigger] e[i]).1
                                <= self.clock() by {
                                assert(e[i] == old_entries[i + 1]);
                            }
                            assert forall|i: int, j: int|
                                0 <= i < e.len() && 0 <= j < e.len() && i != j implies (
                                #[trigger] e[i]).0 != (#[trigger] e[j]).0 by {
                                assert(e[i] == old_entries[i + 1] && e[j] == old_entries[j + 1]);
                            }
                            assert forall|i: int, j: int| 0 <= i <= j < e.len() implies (
                            #[trigger] e[i]).1 <= (#[trigger] e[j]).1 by {
                                assert(e[i] == old_entries[i + 1] && e[j] == old_entries[j + 1]);
                            }
                            assert forall|k2: u64| #[trigger]
                                self.value_map().contains_key(k2) <==> has_key(e, k2) by {
                                assert(old_vals.contains_key(k2) <==> has_key(old_entries, k2));
                                if has_key(e, k2) {
                                    let j = choose|j: int| 0 <= j < e.len() && (#[trigger] e[j]).0 == k2;
                                    assert(e[j] == old_entries[j + 1]);
                                    assert(k2 != k);
                                }
                                if k2 != k && has_key(old_entries, k2) {
                                    let j = choose|j: int|
                                        0 <= j < old_entries.len() && (#[trigger] old_entries[j]).0 == k2;
                                    assert(j != 0);
                                    assert(e[j - 1] == old_entries[j]);
                                }
                            }
                        }
                        Some((k, v, t))
                    },
                    None => {
                        proof {
                            assert(false);
                        }
                        None
                    },
                }
            },
            None => None,
        }
    }
}

/// Entries come out oldest first: the front entry was inserted no later than any other.
pub proof fn lemma_front_is_oldest<V>(m: TimedHashMap<V>)
    requires
        m.wf(),
    ensures
        forall|i: int|
            0 <= i < m.entries().len() ==> m.entries()[0].1 <= (#[trigger] m.entries()[i]).1,
{
}

/// What a read gives back of a write, and what removing undoes: after `insert(k, v, _)` the key
/// holds `v` and is the most recent entry; removing `k` then hands `v` back and, if `k` was
/// absent before the insert, leaves the values as they were before it.
pub proof fn lemma_insert_then_remove<V>(before: TimedHashMap<V>, after: TimedHashMap<V>, k: u64, v: V, t: u64)
    requires
        before.wf(),
        after.value_map() == before.value_map().insert(k, v),
        after.entries() == without_key(before.entries(), k).push((k, t)),
    ensures
        after.value_map().contains_key(k) && after.value_map()[k] == v,
        has_key(after.entries(), k),
        after.entries().last() == (k, t),
        !before.value_map().contains_key(k) ==> after.value_map().remove(k) == before.value_map(),
        !before.value_map().contains_key(k) ==> without_key(after.entries(), k) == before.entries(),
{
    let e = after.entries();
    assert(e[e.len() - 1].0 == k);
    if !before.value_map().contains_key(k) {
        assert(after.value_map().remove(k) =~= before.value_map());
        assert(!has_key(before.entries(), k));
        assert(without_key(before.entries(), k) == before.entries());
        lemma_without_key(e, k);
        let idx = key_index(e, k);
        assert(idx == e.len() - 1) by {
            if idx != e.len() - 1 {
                assert(e[idx] == before.entries()[idx]);
                assert(has_key(before.entries(), k));
            }
        }
        assert(e.remove(idx) =~= before.entries());
    }
}

} // verus!
