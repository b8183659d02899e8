//! A table from text keys to values, kept in ascending byte order of its keys.
//!
//! It models one keyed table of the backing store: point reads, point writes
//! and a listing in key order.

use vstd::prelude::*;
use crate::text::{compare_text, lemma_text_before_asymmetric, lemma_text_before_transitive, text_before, Standing};

verus! {

/// Every key stands before all the keys behind it.
pub open spec fn ascending(keys: Seq<Seq<char>>) -> bool {
    forall|i: int, j: int| 0 <= i < j < keys.len() ==> text_before(#[trigger] keys[i], #[trigger] keys[j])
}

/// The views of a sequence of owned keys.
pub open spec fn key_views(keys: Seq<String>) -> Seq<Seq<char>> {
    keys.map_values(|k: String| k@)
}

/// Where a key is, or where it would have to go.
#[derive(Clone, Copy, Debug, PartialEq, Eq)]
pub enum Slot {
    /// The key is held at this index.
    Held(usize),
    /// The key is absent; put at this index it keeps the keys ascending.
    Free(usize),
}

/// The table. Its entries are reached through its methods only.
#[derive(Debug, PartialEq)]
pub struct Table<V> {
    keys: Vec<String>,
    values: Vec<V>,
}

impl<V> Table<V> {
    /// The keys, in the order in which the table lists them.
    pub closed spec fn keys(&self) -> Seq<Seq<char>> {
        key_views(self.keys@)
    }

    /// The values, each at the index of its key.
    pub closed spec fn values(&self) -> Seq<V> {
        self.values@
    }

    /// One value per key, and the keys strictly ascending.
    pub open spec fn wf(&self) -> bool {
        &&& self.keys().len() == self.values().len()
        &&& ascending(self.keys())
    }

    /// The table as a map from key to value.
    pub open spec fn view(&self) -> Map<Seq<char>, V> {
        Map::new(
            |k: Seq<char>| self.keys().contains(k),
            |k: Seq<char>| self.values()[self.keys().index_of(k)],
        )
    }

    /// In a well-formed table a key occurs at one index only, and the map
    /// holds at that key the value of that index.
    pub proof fn lemma_entry(&self, i: int)
        requires
            self.wf(),
            0 <= i < self.keys().len(),
        ensures
            self@.contains_key(self.keys()[i]),
            self@[self.keys()[i]] == self.values()[i],
            self.keys().index_of(self.keys()[i]) == i,
    {
        let k = self.keys()[i];
        let j = self.keys().index_of(k);
        assert(self.keys().contains(k));
        if j < i {
            lemma_text_before_asymmetric(self.keys()[j], self.keys()[i]);
        } else if i < j {
            lemma_text_before_asymmetric(self.keys()[i], self.keys()[j]);
        }
    }

    /// A table without entries.
    pub fn new() -> (r: Self)
        ensures
            r.wf(),
            r.keys().len() == 0,
            r@ == Map::<Seq<char>, V>::empty(),
    {
        let r = Table { keys: Vec::new(), values: Vec::new() };
        assert(r.keys() =~= Seq::<Seq<char>>::empty());
        assert(r@ =~= Map::<Seq<char>, V>::empty());
        r
    }

    /// The number of entries.
    pub fn len(&self) -> (n: usize)
        ensures
            n == self.keys().len(),
    {
        self.keys.len()
    }

    /// The key of the `i`-th entry in key order.
    pub fn key_at(&self, i: usize) -> (k: &String)
        requires
            i < self.keys().len(),
        ensures
            k@ == self.keys()[i as int],
    {
        &self.keys[i]
    }

    /// The value of the `i`-th entry in key order.
    pub fn value_at(&self, i: usize) -> (v: &V)
        requires
            self.wf(),
            i < self.keys().len(),
        ensures
            *v == self.values()[i as int],
            self@.contains_key(self.keys()[i as int]),
            *v == self@[self.keys()[i as int]],
    {
        proof {
            self.lemma_entry(i as int);
        }
        &self.values[i]
    }

    /// Finds `key` by binary search.
    pub fn locate(&self, key: &str) -> (slot: Slot)
        requires
            self.wf(),
        ensures
            match slot {
                Slot::Held(i) => i < self.keys().len() && self.keys()[i as int] == key@,
                Slot::Free(i) => {
                    &&& i <= self.keys().len()
                    &&& !self.keys().contains(key@)
                    &&& forall|j: int| 0 <= j < i ==> text_before(#[trigger] self.keys()[j], key@)
                    &&& forall|j: int| i <= j < self.keys().len() ==> text_before(key@, #[trigger] self.keys()[j])
                },
            },
    {
        let mut low: usize = 0;
        let mut high: usize = self.keys.len();
        while low < high
            invariant
                self.wf(),
                low <= high <= self.keys().len(),
                self.keys().len() == self.keys@.len(),
                forall|j: int| 0 <= j < low ==> text_before(#[trigger] self.keys()[j], key@),
                forall|j: int| high <= j < self.keys().len() ==> text_before(key@, #[trigger] self.keys()[j]),
            decreases high - low,
        {
            let mid = low + (high - low) / 2;
            assert(self.keys()[mid as int] == self.keys@[mid as int]@);
            match compare_text(self.keys[mid].as_str(), key) {
                Standing::Same => {
                    return Slot::Held(mid);
                },
                Standing::Before => {
                    proof {
                        assert forall|j: int| 0 <= j < mid + 1 implies text_before(#[trigger] self.keys()[j], key@) by {
                            if j < mid {
                                lemma_text_before_transitive(self.keys()[j], self.keys()[mid as int], key@);
                            }
                        }
                    }
                    low = mid + 1;
                },
                Standing::After => {
                    proof {
                        assert forall|j: int| mid <= j < self.keys().len() implies text_before(key@, #[trigger] self.keys()[j]) by {
                            if mid < j {
                                lemma_text_before_transitive(key@, self.keys()[mid as int], self.keys()[j]);
                            }
                        }
                    }
                    high = mid;
                },
            }
        }
        proof {
            if self.keys().contains(key@) {
                let j = self.keys().index_of(key@);
                if j < low {
                    lemma_text_before_asymmetric(self.keys()[j], key@);
                } else {
                    lemma_text_before_asymmetric(key@, self.keys()[j]);
                }
            }
        }
        Slot::Free(low)
    }

    /// Whether the table holds `key`.
    pub fn has(&self, key: &str) -> (r: bool)
        requires
            self.wf(),
        ensures
            r == self@.contains_key(key@),
    {
        match self.locate(key) {
            Slot::Held(_) => true,
            Slot::Free(_) => false,
        }
    }

    /// The value under `key`, if the table holds one.
    pub fn may_load(&self, key: &str) -> (r: Option<&V>)
        requires
            self.wf(),
        ensures
            match r {
                Some(v) => self@.contains_key(key@) && *v == self@[key@],
                None => !self@.contains_key(key@),
            },
    {
        match self.locate(key) {
            Slot::Held(i) => {
                proof {
                    self.lemma_entry(i as int);
                }
                Some(&self.values[i])
            },
            Slot::Free(_) => None,
        }
    }

    /// Files `value` under `key`, in place of the value that was there if any.
    pub fn save(&mut self, key: String, value: V)
        requires
            old(self).wf(),
        ensures
            final(self).wf(),
            final(self)@ == old(self)@.insert(key@, value),
    {
        match self.locate(key.as_str()) {
            Slot::Held(i) => {
                proof {
                    self.lemma_entry(i as int);
                }
                self.values.set(i, value);
                proof {
                    assert(self.keys() == old(self).keys());
                    assert forall|k: Seq<char>| self@.contains_key(k) implies #[trigger] self@[k] == old(self)@.insert(key@, value)[k] by {
                        let j = self.keys().index_of(k);
                        old(self).lemma_entry(j);
                    }
                    assert(self@ =~= old(self)@.insert(key@, value));
                }
            },
            Slot::Free(i) => {
                let ghost before = self.keys();
                self.keys.insert(i, key);
                self.values.insert(i, value);
                proof {
                    let after = self.keys();
                    assert(after =~= before.insert(i as int, key@));
                    assert forall|a: int, b: int| 0 <= a < b < after.len() implies text_before(#[trigger] after[a], #[trigger] after[b]) by {
                        if a == i {
                            assert(after[b] == before[b - 1]);
                        } else if b == i {
                            assert(after[a] == before[a]);
                        } else {
                            let a0 = if a < i { a } else { a - 1 };
                            let b0 = if b < i { b } else { b - 1 };
                            assert(after[a] == before[a0]);
                            assert(after[b] == before[b0]);
                        }
                    }
                    assert forall|k: Seq<char>| self@.contains_key(k) == old(self)@.insert(key@, value).contains_key(k) by {
                        if before.contains(k) {
                            let j = before.index_of(k);
                            let j1 = if j < i { j } else { j + 1 };
                            assert(after[j1] == k);
                        }
                        if after.contains(k) {
                            let j = after.index_of(k);
                            if j != i {
                                let j0 = if j < i { j } else { j - 1 };
                                assert(before[j0] == k);
                            }
                        }
                        assert(after[i as int] == key@);
                    }
                    assert forall|k: Seq<char>| self@.contains_key(k) implies #[trigger] self@[k] == old(self)@.insert(key@, value)[k] by {
                        let j = after.index_of(k);
                        self.lemma_entry(j);
                        if j != i {
                            let j0 = if j < i { j } else { j - 1 };
                            assert(before[j0] == k);
                            old(self).lemma_entry(j0);
                        }
                    }
                    assert(self@ =~= old(self)@.insert(key@, value));
                }
            },
        }
    }
}

} // verus!
