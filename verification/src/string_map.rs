//! A map keyed by text, kept as a flat list that is scanned from the front.
//!
//! vstd gives `std::collections::HashMap` a meaning only for keys that obey
//! its key model, which it grants to integers and not to `String`; its own
//! `StringHashMap` can be neither copied nor walked. The stores here are
//! copied and walked, so they keep their entries in a `Vec`, with the
//! invariant that no key is held twice.

use crate::text::str_equal;
use vstd::prelude::*;

verus! {

/// A finite map from text keys to values.
///
/// Its view is a `Map` from the characters of a key to the value held under
/// it. No key is held twice.
#[derive(Debug)]
pub struct StringMap<V> {
    entries: Vec<(String, V)>,
}

/// Whether `entries` holds `key` at position `i`.
pub open spec fn holds_at<V>(entries: Seq<(String, V)>, key: Seq<char>, i: int) -> bool {
    0 <= i < entries.len() && entries[i].0@ == key
}

/// A position at which `entries` holds `key`, where there is one.
pub open spec fn slot_of<V>(entries: Seq<(String, V)>, key: Seq<char>) -> int {
    choose|i: int| holds_at(entries, key, i)
}

/// No two entries have the same key.
pub open spec fn distinct_keys<V>(entries: Seq<(String, V)>) -> bool {
    forall|i: int, j: int|
        0 <= i < j < entries.len() ==> (#[trigger] entries[i]).0@ != (#[trigger] entries[j]).0@
}

/// The map that a list of entries with distinct keys stands for.
pub open spec fn map_of<V>(entries: Seq<(String, V)>) -> Map<Seq<char>, V> {
    Map::new(
        |k: Seq<char>| exists|i: int| holds_at(entries, k, i),
        |k: Seq<char>| entries[slot_of(entries, k)].1,
    )
}

impl<V> View for StringMap<V> {
    type V = Map<Seq<char>, V>;

    closed spec fn view(&self) -> Map<Seq<char>, V> {
        map_of(self.entries@)
    }
}

impl<V> StringMap<V> {
    #[verifier::type_invariant]
    spec fn well_formed(self) -> bool {
        distinct_keys(self.entries@)
    }

    /// The keys in the order in which they were first inserted.
    pub closed spec fn key_order(self) -> Seq<Seq<char>> {
        Seq::new(self.entries@.len(), |i: int| self.entries@[i].0@)
    }

    /// An empty map.
    pub fn new() -> (m: Self)
        ensures
            m@ == Map::<Seq<char>, V>::empty(),
            m.key_order() == Seq::<Seq<char>>::empty(),
    {
        StringMap { entries: Vec::new() }
    }

    /// A position at which `key` is held, if it is held.
    fn position(&self, key: &str) -> (r: Option<usize>)
        ensures
            match r {
                Some(i) => holds_at(self.entries@, key@, i as int),
                None => forall|i: int| !holds_at(self.entries@, key@, i),
            },
    {
        let mut i: usize = 0;
        while i < self.entries.len()
            invariant
                i <= self.entries.len(),
                forall|j: int| 0 <= j < i ==> !holds_at(self.entries@, key@, j),
            decreases self.entries.len() - i,
        {
            if str_equal(self.entries[i].0.as_str(), key) {
                return Some(i);
            }
            i += 1;
        }
        None
    }

    /// Tells whether a value is held under `key`.
    pub fn contains_key(&self, key: &str) -> (b: bool)
        ensures
            b == self@.contains_key(key@),
    {
        self.position(key).is_some()
    }

    /// The value held under `key`, if any.
    pub fn get(&self, key: &str) -> (r: Option<&V>)
        ensures
            match r {
                Some(v) => self@.contains_key(key@) && *v == self@[key@],
                None => !self@.contains_key(key@),
            },
    {
        proof {
            use_type_invariant(self);
        }
        match self.position(key) {
            Some(i) => Some(&self.entries[i].1),
            None => None,
        }
    }

    /// Puts `value` under `key` and hands back the value that was there.
    pub fn insert(&mut self, key: String, value: V) -> (previous: Option<V>)
        ensures
            final(self)@ == old(self)@.insert(key@, value),
            previous == if old(self)@.contains_key(key@) {
                Some(old(self)@[key@])
            } else {
                None
            },
    {
        proof {
            use_type_invariant(&*self);
        }
        let found = self.position(key.as_str());
        let mut entries: Vec<(String, V)> = Vec::new();
        std::mem::swap(&mut entries, &mut self.entries);
        let ghost before = entries@;
        let previous = match found {
            Some(i) => {
                let gone = entries.remove(i);
                entries.insert(i, (key, value));
                proof {
                    lemma_replace(before, entries@, i as int);
                }
                Some(gone.1)
            },
            None => {
                entries.push((key, value));
                proof {
                    lemma_append(before, entries@);
                }
                None
            },
        };
        self.entries = entries;
        previous
    }

    /// Takes away the value held under `key` and hands it back.
    pub fn remove(&mut self, key: &str) -> (taken: Option<V>)
        ensures
            final(self)@ == old(self)@.remove(key@),
            taken == if old(self)@.contains_key(key@) {
                Some(old(self)@[key@])
            } else {
                None
            },
    {
        proof {
            use_type_invariant(&*self);
        }
        let found = self.position(key);
        match found {
            Some(i) => {
                let mut entries: Vec<(String, V)> = Vec::new();
                std::mem::swap(&mut entries, &mut self.entries);
                let ghost before = entries@;
                let gone = entries.remove(i);
                proof {
                    lemma_remove(before, entries@, i as int);
                }
                self.entries = entries;
                Some(gone.1)
            },
            None => None,
        }
    }

    /// The number of keys, with what `key_order` lists: each key once.
    pub fn len(&self) -> (n: usize)
        ensures
            n == self.key_order().len(),
            self.key_order().no_duplicates(),
            forall|k: Seq<char>| self.key_order().contains(k) <==> self@.contains_key(k),
    {
        proof {
            use_type_invariant(self);
            let order = self.key_order();
            assert forall|k: Seq<char>| order.contains(k) <==> self@.contains_key(k) by {
                if order.contains(k) {
                    let i = choose|i: int| 0 <= i < order.len() && order[i] == k;
                    assert(holds_at(self.entries@, k, i));
                }
                if self@.contains_key(k) {
                    let i = choose|i: int| holds_at(self.entries@, k, i);
                    assert(order[i] == k);
                }
            }
        }
        self.entries.len()
    }

    /// The key at position `i` of `key_order`.
    pub fn key_at(&self, i: usize) -> (key: &String)
        requires
            i < self.key_order().len(),
        ensures
            key@ == self.key_order()[i as int],
    {
        &self.entries[i].0
    }

    /// The value held under the key at position `i` of `key_order`.
    pub fn value_at(&self, i: usize) -> (value: &V)
        requires
            i < self.key_order().len(),
        ensures
            self@.contains_key(self.key_order()[i as int]),
            *value == self@[self.key_order()[i as int]],
    {
        proof {
            use_type_invariant(self);
            lemma_slot(self.entries@, self.entries@[i as int].0@, i as int);
        }
        &self.entries[i].1
    }
}

impl<V: Clone> Clone for StringMap<V> {
    /// A map with the same keys, each value cloned.
    fn clone(&self) -> (copy: Self)
        ensures
            copy@.dom() == self@.dom(),
            forall|k: Seq<char>| #[trigger]
                copy@.contains_key(k) ==> cloned::<V>(self@[k], copy@[k]),
    {
        proof {
            use_type_invariant(self);
        }
        let mut entries: Vec<(String, V)> = Vec::new();
        let mut i: usize = 0;
        while i < self.entries.len()
            invariant
                i <= self.entries.len(),
                entries.len() == i,
                forall|j: int|
                    0 <= j < i ==> (#[trigger] entries[j]).0@ == self.entries[j].0@ && cloned::<V>(
                        self.entries[j].1,
                        entries[j].1,
                    ),
            decreases self.entries.len() - i,
        {
            let key = self.entries[i].0.clone();
            let value = self.entries[i].1.clone();
            entries.push((key, value));
            i += 1;
        }
        proof {
            let src = self.entries@;
            let dst = entries@;
            assert forall|k: Seq<char>| map_of(dst).contains_key(k) <==> map_of(
                src,
            ).contains_key(k) by {
                if map_of(dst).contains_key(k) {
                    let j = choose|j: int| holds_at(dst, k, j);
                    assert(holds_at(src, k, j));
                }
                if map_of(src).contains_key(k) {
                    let j = choose|j: int| holds_at(src, k, j);
                    assert(holds_at(dst, k, j));
                }
            }
        }
        StringMap { entries }
    }
}

/// With distinct keys, a key is held at one position only, and the map
/// holds under the key what stands there.
proof fn lemma_slot<V>(entries: Seq<(String, V)>, key: Seq<char>, i: int)
    requires
        distinct_keys(entries),
        holds_at(entries, key, i),
    ensures
        slot_of(entries, key) == i,
        map_of(entries).contains_key(key),
        map_of(entries)[key] == entries[i].1,
{
}

/// Putting another entry with the same key in the place of an entry is an
/// insertion into the map.
proof fn lemma_replace<V>(before: Seq<(String, V)>, after: Seq<(String, V)>, i: int)
    requires
        distinct_keys(before),
        0 <= i < before.len(),
        after.len() == before.len(),
        after[i].0@ == before[i].0@,
        forall|j: int| 0 <= j < before.len() && j != i ==> after[j] == before[j],
    ensures
        distinct_keys(after),
        map_of(after) == map_of(before).insert(after[i].0@, after[i].1),
{
    let key = after[i].0@;
    let target = map_of(before).insert(key, after[i].1);
    assert forall|k: Seq<char>| map_of(after).contains_key(k) <==> target.contains_key(k) by {
        if map_of(after).contains_key(k) {
            let j = choose|j: int| holds_at(after, k, j);
            assert(holds_at(before, k, j));
        }
        if target.contains_key(k) {
            if k != key {
                let j = choose|j: int| holds_at(before, k, j);
                assert(holds_at(after, k, j));
            } else {
                assert(holds_at(after, k, i));
            }
        }
    }
}

/// Adding an entry with a new key at the end is an insertion into the map.
proof fn lemma_append<V>(before: Seq<(String, V)>, after: Seq<(String, V)>)
    requires
        distinct_keys(before),
        after.len() == before.len() + 1,
        forall|j: int| 0 <= j < before.len() ==> after[j] == before[j],
        forall|j: int| !holds_at(before, after[before.len() as int].0@, j),
    ensures
        distinct_keys(after),
        map_of(after) == map_of(before).insert(
            after[before.len() as int].0@,
            after[before.len() as int].1,
        ),
{
    let n = before.len() as int;
    let key = after[n].0@;
    assert forall|a: int, b: int| 0 <= a < b < after.len() implies (#[trigger] after[a]).0@ != (
    #[trigger] after[b]).0@ by {
        if b >= n {
            assert(!holds_at(before, key, a));
        }
    }
    let target = map_of(before).insert(key, after[n].1);
    assert forall|k: Seq<char>| map_of(after).contains_key(k) <==> target.contains_key(k) by {
        if map_of(after).contains_key(k) {
            let j = choose|j: int| holds_at(after, k, j);
            if j < n {
                assert(holds_at(before, k, j));
            }
        }
        if target.contains_key(k) {
            if k != key {
                let j = choose|j: int| holds_at(before, k, j);
                assert(holds_at(after, k, j));
            } else {
                assert(holds_at(after, k, n));
            }
        }
    }
}

/// Taking out an entry is the removal of its key from the map.
proof fn lemma_remove<V>(before: Seq<(String, V)>, after: Seq<(String, V)>, i: int)
    requires
        distinct_keys(before),
        0 <= i < before.len(),
        after == before.remove(i),
    ensures
        distinct_keys(after),
        map_of(after) == map_of(before).remove(before[i].0@),
{
    let key = before[i].0@;
    let target = map_of(before).remove(key);
    assert forall|k: Seq<char>| map_of(after).contains_key(k) <==> target.contains_key(k) by {
        if map_of(after).contains_key(k) {
            let j = choose|j: int| holds_at(after, k, j);
            let j0 = if j < i { j } else { j + 1 };
            assert(holds_at(before, k, j0));
        }
        if target.contains_key(k) {
            let j = choose|j: int| holds_at(before, k, j);
            let j1 = if j < i { j } else { j - 1 };
            assert(holds_at(after, k, j1));
        }
    }
    assert forall|k: Seq<char>| map_of(after).contains_key(k) implies map_of(after)[k]
        == target[k] by {
        let j = choose|j: int| holds_at(after, k, j);
        let j0 = if j < i { j } else { j + 1 };
        lemma_slot(before, k, j0);
    }
}

} // verus!
