//! A small map from strings to values that keeps insertion order.

use crate::text::same_text;
use vstd::prelude::*;

verus! {

/// A map keyed by strings. Keys are compared by their characters, no key
/// occurs twice, and entries stay in the order in which their keys were
/// first inserted.
#[derive(Debug, Clone)]
pub struct StringMap<V> {
    entries: Vec<(String, V)>,
}

/// The position of `key` in `keys`, if it occurs.
pub open spec fn position_of(keys: Seq<Seq<char>>, key: Seq<char>) -> Option<int> {
    if keys.contains(key) {
        Some(keys.index_of(key))
    } else {
        None
    }
}

impl<V> StringMap<V> {
    /// The keys, in insertion order.
    pub closed spec fn keys(&self) -> Seq<Seq<char>> {
        Seq::new(self.entries@.len(), |i: int| self.entries@[i].0@)
    }

    /// The values, each at the position of its key.
    pub closed spec fn values(&self) -> Seq<V> {
        Seq::new(self.entries@.len(), |i: int| self.entries@[i].1)
    }

    /// No key occurs twice.
    pub closed spec fn wf(&self) -> bool {
        self.keys().no_duplicates()
    }

    /// The value stored under `key`, if any.
    pub open spec fn lookup(&self, key: Seq<char>) -> Option<V> {
        match position_of(self.keys(), key) {
            Some(i) => Some(self.values()[i]),
            None => None,
        }
    }

    /// What a well-formed map guarantees.
    pub proof fn lemma_wf(&self)
        requires
            self.wf(),
        ensures
            self.keys().no_duplicates(),
            self.keys().len() == self.values().len(),
    {
    }

    /// The empty map.
    pub fn new() -> (map: Self)
        ensures
            map.keys() == Seq::<Seq<char>>::empty(),
            map.values() == Seq::<V>::empty(),
            map.wf(),
    {
        let map = StringMap { entries: Vec::new() };
        assert(map.keys() =~= Seq::<Seq<char>>::empty());
        assert(map.values() =~= Seq::<V>::empty());
        map
    }

    /// Number of entries.
    pub fn len(&self) -> (n: usize)
        ensures
            n == self.keys().len(),
            n == self.values().len(),
    {
        self.entries.len()
    }

    /// The key at position `i`.
    pub fn key_at(&self, i: usize) -> (key: &String)
        requires
            i < self.keys().len(),
        ensures
            key@ == self.keys()[i as int],
    {
        &self.entries[i].0
    }

    /// The value at position `i`.
    pub fn value_at(&self, i: usize) -> (value: &V)
        requires
            i < self.values().len(),
        ensures
            *value == self.values()[i as int],
    {
        &self.entries[i].1
    }

    /// Where `key` is stored.
    pub fn position(&self, key: &str) -> (at: Option<usize>)
        requires
            self.wf(),
        ensures
            match at {
                Some(i) => position_of(self.keys(), key@) == Some(i as int) && i < self.keys().len(),
                None => position_of(self.keys(), key@) is None,
            },
    {
        let mut i: usize = 0;
        while i < self.entries.len()
            invariant
                i <= self.entries.len(),
                self.wf(),
                forall|k: int| 0 <= k < i ==> self.keys()[k] != key@,
            decreases self.entries.len() - i,
        {
            if same_text(self.entries[i].0.as_str(), key) {
                assert(self.keys()[i as int] == key@);
                assert(self.keys().contains(key@));
                let ghost j = self.keys().index_of(key@);
                assert(self.keys()[j] == key@);
                return Some(i);
            }
            i += 1;
        }
        None
    }

    /// Whether `key` is stored.
    pub fn contains_key(&self, key: &str) -> (r: bool)
        requires
            self.wf(),
        ensures
            r == self.keys().contains(key@),
    {
        self.position(key).is_some()
    }

    /// The value stored under `key`.
    pub fn get(&self, key: &str) -> (value: Option<&V>)
        requires
            self.wf(),
        ensures
            match value {
                Some(v) => self.lookup(key@) == Some(*v),
                None => self.lookup(key@) is None,
            },
    {
        match self.position(key) {
            Some(i) => Some(&self.entries[i].1),
            None => None,
        }
    }

    /// Stores `value` under `key` unless the key is taken, and tells
    /// whether it was stored. A new key goes to the end.
    pub fn insert_if_absent(&mut self, key: String, value: V) -> (stored: bool)
        requires
            old(self).wf(),
        ensures
            final(self).wf(),
            stored == !old(self).keys().contains(key@),
            stored ==> final(self).keys() == old(self).keys().push(key@) && final(self).values()
                == old(self).values().push(value),
            !stored ==> final(self).keys() == old(self).keys() && final(self).values() == old(
                self,
            ).values(),
    {
        match self.position(key.as_str()) {
            Some(_) => false,
            None => {
                let ghost before = *self;
                self.entries.push((key, value));
                proof {
                    assert(self.keys() =~= before.keys().push(key@));
                    assert(self.values() =~= before.values().push(value));
                    assert forall|a: int, b: int|
                        0 <= a < self.keys().len() && 0 <= b < self.keys().len() && a
                            != b implies self.keys()[a] != self.keys()[b] by {
                        if a < before.keys().len() && b < before.keys().len() {
                        } else if a < before.keys().len() {
                            assert(before.keys()[a] != key@);
                        } else {
                            assert(before.keys()[b] != key@);
                        }
                    }
                }
                true
            },
        }
    }

    /// Stores `value` under `key`. A key that is taken keeps its position
    /// and gets the new value; a new key goes to the end.
    pub fn insert(&mut self, key: String, value: V)
        requires
            old(self).wf(),
        ensures
            final(self).wf(),
            match position_of(old(self).keys(), key@) {
                Some(i) => final(self).keys() == old(self).keys() && final(self).values() == old(
                    self,
                ).values().update(i, value),
                None => final(self).keys() == old(self).keys().push(key@) && final(self).values()
                    == old(self).values().push(value),
            },
    {
        match self.position(key.as_str()) {
            Some(i) => {
                let ghost before = *self;
                self.entries.set(i, (key, value));
                proof {
                    assert(self.keys() =~= before.keys());
                    assert(self.values() =~= before.values().update(i as int, value));
                }
            },
            None => {
                let stored = self.insert_if_absent(key, value);
            },
        }
    }

    /// Puts `value` at position `i` and gives back the value that was
    /// there. The key at that position stays.
    pub fn replace_at(&mut self, i: usize, value: V) -> (previous: V)
        requires
            old(self).wf(),
            i < old(self).keys().len(),
        ensures
            final(self).wf(),
            final(self).keys() == old(self).keys(),
            final(self).values() == old(self).values().update(i as int, value),
            previous == old(self).values()[i as int],
    {
        let ghost before = *self;
        let (key, previous) = self.entries.remove(i);
        self.entries.insert(i, (key, value));
        proof {
            assert(self.keys() =~= before.keys());
            assert(self.values() =~= before.values().update(i as int, value));
        }
        previous
    }
}

} // verus!
