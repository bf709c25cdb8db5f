//! A small insertion-ordered table keyed by strings.
//!
//! Keys are compared by their characters. No key occurs twice, and an entry
//! that is overwritten keeps its place.

use vstd::prelude::*;
use crate::text::{first_index, lemma_first_index_bounds, lemma_first_index_is, same_text, strs};

verus! {

/// Insertion-ordered table from strings to `V`.
pub struct StrTable<V> {
    keys: Vec<String>,
    vals: Vec<V>,
}

impl<V> StrTable<V> {
    /// The keys, in insertion order.
    pub closed spec fn keys(&self) -> Seq<Seq<char>> {
        strs(self.keys@)
    }

    /// The values, in the order of their keys.
    pub closed spec fn vals(&self) -> Seq<V> {
        self.vals@
    }

    /// Keys and values line up and no key occurs twice.
    pub closed spec fn wf(&self) -> bool {
        &&& self.keys@.len() == self.vals@.len()
        &&& self.keys().no_duplicates()
    }

    /// Whether `k` is a key.
    pub open spec fn has(&self, k: Seq<char>) -> bool {
        self.keys().contains(k)
    }

    /// Position of `k` among the keys (their number if `k` is no key).
    pub open spec fn position(&self, k: Seq<char>) -> int {
        first_index(self.keys(), k)
    }

    /// The value stored under `k`.
    pub open spec fn value(&self, k: Seq<char>) -> V
        recommends
            self.has(k),
    {
        self.vals()[self.position(k)]
    }

    /// The table as a map.
    pub open spec fn map(&self) -> Map<Seq<char>, V> {
        Map::new(|k: Seq<char>| self.has(k), |k: Seq<char>| self.value(k))
    }

    /// Lengths agree and positions are in range.
    pub proof fn lemma_shape(&self)
        requires
            self.wf(),
        ensures
            self.keys().len() == self.vals().len(),
            self.keys().no_duplicates(),
            forall|k: Seq<char>| self.has(k) <==> 0 <= self.position(k) < self.keys().len(),
            forall|k: Seq<char>| self.has(k) ==> self.keys()[self.position(k)] == k,
            forall|i: int| 0 <= i < self.keys().len() ==> self.position(#[trigger] self.keys()[i]) == i,
    {
        assert forall|k: Seq<char>| self.has(k) <==> 0 <= self.position(k) < self.keys().len() by {
            lemma_first_index_bounds(self.keys(), k);
        }
        assert forall|k: Seq<char>| self.has(k) implies self.keys()[self.position(k)] == k by {
            lemma_first_index_bounds(self.keys(), k);
        }
        assert forall|i: int| 0 <= i < self.keys().len() implies self.position(#[trigger] self.keys()[i]) == i by {
            lemma_first_index_is(self.keys(), self.keys()[i], i);
        }
    }

    /// An empty table.
    pub fn new() -> (t: StrTable<V>)
        ensures
            t.wf(),
            t.keys() == Seq::<Seq<char>>::empty(),
            t.vals() == Seq::<V>::empty(),
            t.map() == Map::<Seq<char>, V>::empty(),
    {
        let t = StrTable { keys: Vec::new(), vals: Vec::new() };
        assert(t.keys() =~= Seq::<Seq<char>>::empty());
        assert(t.map() =~= Map::<Seq<char>, V>::empty());
        t
    }

    /// Number of entries.
    pub fn len(&self) -> (n: usize)
        requires
            self.wf(),
        ensures
            n == self.keys().len(),
            n == self.vals().len(),
    {
        self.keys.len()
    }

    /// Position of the entry with key `k`, if there is one.
    pub fn find(&self, k: &str) -> (r: Option<usize>)
        requires
            self.wf(),
        ensures
            r is Some <==> self.has(k@),
            r is Some ==> r->0 == self.position(k@) && r->0 < self.keys().len() && r->0 < self.vals().len(),
    {
        let mut i: usize = 0;
        while i < self.keys.len()
            invariant
                self.wf(),
                i <= self.keys.len(),
                forall|j: int| 0 <= j < i ==> self.keys()[j] != k@,
            decreases self.keys.len() - i,
        {
            if same_text(self.keys[i].as_str(), k) {
                proof {
                    assert(self.keys()[i as int] == k@);
                    lemma_first_index_is(self.keys(), k@, i as int);
                }
                return Some(i);
            }
            i += 1;
        }
        None
    }

    /// The key at position `i`.
    pub fn key_at(&self, i: usize) -> (k: &String)
        requires
            self.wf(),
            i < self.keys().len(),
        ensures
            k@ == self.keys()[i as int],
    {
        &self.keys[i]
    }

    /// The value at position `i`.
    pub fn value_at(&self, i: usize) -> (v: &V)
        requires
            self.wf(),
            i < self.vals().len(),
        ensures
            *v == self.vals()[i as int],
    {
        &self.vals[i]
    }

    /// Replaces the value at position `i`.
    pub fn set_at(&mut self, i: usize, v: V)
        requires
            old(self).wf(),
            i < old(self).vals().len(),
        ensures
            final(self).wf(),
            final(self).keys() == old(self).keys(),
            final(self).vals() == old(self).vals().update(i as int, v),
            final(self).map() == old(self).map().insert(old(self).keys()[i as int], v),
    {
        proof {
            old(self).lemma_shape();
        }
        self.vals.set(i, v);
        proof {
            self.lemma_shape();
            assert(self.map() =~= old(self).map().insert(old(self).keys()[i as int], v));
        }
    }

    /// Stores `v` under `k`: an existing entry is overwritten in place, a new
    /// one goes to the end.
    pub fn insert(&mut self, k: String, v: V)
        requires
            old(self).wf(),
        ensures
            final(self).wf(),
            final(self).map() == old(self).map().insert(k@, v),
            old(self).has(k@) ==> final(self).keys() == old(self).keys() && final(self).vals() == old(
                self,
            ).vals().update(old(self).position(k@), v),
            !old(self).has(k@) ==> final(self).keys() == old(self).keys().push(k@) && final(self).vals()
                == old(self).vals().push(v),
    {
        proof {
            old(self).lemma_shape();
        }
        match self.find(k.as_str()) {
            Some(i) => {
                self.set_at(i, v);
            },
            None => {
                self.keys.push(k);
                self.vals.push(v);
                proof {
                    assert(self.keys() =~= old(self).keys().push(k@));
                    assert forall|k2: Seq<char>| old(self).has(k2) implies self.position(k2) == old(
                        self,
                    ).position(k2) by {
                        let p = old(self).position(k2);
                        assert(self.keys()[p] == k2);
                        lemma_first_index_is(self.keys(), k2, p);
                    }
                    assert(self.keys()[self.keys().len() - 1] == k@);
                    lemma_first_index_is(self.keys(), k@, self.keys().len() - 1);
                    assert forall|k2: Seq<char>| self.has(k2) <==> (old(self).has(k2) || k2 == k@) by {
                        if self.has(k2) {
                            let j = choose|j: int| 0 <= j < self.keys().len() && self.keys()[j] == k2;
                            if j < old(self).keys().len() {
                                assert(old(self).keys()[j] == k2);
                            }
                        }
                        if old(self).has(k2) {
                            let j = choose|j: int| 0 <= j < old(self).keys().len() && old(self).keys()[j] == k2;
                            assert(self.keys()[j] == k2);
                        }
                    }
                    assert(self.map() =~= old(self).map().insert(k@, v));
                }
            },
        }
    }

    /// Removes the entry at position `i` and returns its value.
    pub fn remove_at(&mut self, i: usize) -> (v: V)
        requires
            old(self).wf(),
            i < old(self).keys().len(),
        ensures
            final(self).wf(),
            v == old(self).vals()[i as int],
            final(self).keys() == old(self).keys().remove(i as int),
            final(self).vals() == old(self).vals().remove(i as int),
            final(self).map() == old(self).map().remove(old(self).keys()[i as int]),
    {
        proof {
            old(self).lemma_shape();
        }
        let _ = self.keys.remove(i);
        let v = self.vals.remove(i);
        proof {
            let ok = old(self).keys();
            let gone = ok[i as int];
            assert(self.keys() =~= ok.remove(i as int));
            assert forall|a: int, b: int|
                0 <= a < self.keys().len() && 0 <= b < self.keys().len() && a != b implies self.keys()[a]
                != self.keys()[b] by {
                let a2 = if a < i { a } else { a + 1 };
                let b2 = if b < i { b } else { b + 1 };
                assert(self.keys()[a] == ok[a2]);
                assert(self.keys()[b] == ok[b2]);
            }
            assert forall|k2: Seq<char>| self.has(k2) <==> (old(self).has(k2) && k2 != gone) by {
                if self.has(k2) {
                    let j = choose|j: int| 0 <= j < self.keys().len() && self.keys()[j] == k2;
                    let j2 = if j < i { j } else { j + 1 };
                    assert(ok[j2] == k2);
                }
                if old(self).has(k2) && k2 != gone {
                    let j = choose|j: int| 0 <= j < ok.len() && ok[j] == k2;
                    let j2 = if j < i { j } else { j - 1 };
                    assert(self.keys()[j2] == k2);
                }
            }
            assert forall|k2: Seq<char>| self.has(k2) implies self.value(k2) == old(self).value(k2) by {
                let p = old(self).position(k2);
                let shifted = if p < i { p } else { p - 1 };
                assert(self.keys()[shifted] == k2);
                assert forall|j: int| 0 <= j < shifted implies self.keys()[j] != k2 by {
                    let j2 = if j < i { j } else { j + 1 };
                    assert(self.keys()[j] == ok[j2]);
                }
                lemma_first_index_is(self.keys(), k2, shifted);
            }
            assert(self.map() =~= old(self).map().remove(gone));
        }
        v
    }

    /// Removes the entry with key `k`, if there is one, and returns its value.
    pub fn remove(&mut self, k: &str) -> (r: Option<V>)
        requires
            old(self).wf(),
        ensures
            final(self).wf(),
            r is Some <==> old(self).has(k@),
            r is Some ==> r->0 == old(self).value(k@),
            final(self).map() == old(self).map().remove(k@),
            old(self).has(k@) ==> final(self).keys() == old(self).keys().remove(old(self).position(k@))
                && final(self).vals() == old(self).vals().remove(old(self).position(k@)),
            !old(self).has(k@) ==> final(self).keys() == old(self).keys() && final(self).vals() == old(
                self,
            ).vals(),
    {
        proof {
            old(self).lemma_shape();
        }
        match self.find(k) {
            Some(i) => {
                let v = self.remove_at(i);
                Some(v)
            },
            None => {
                assert(self.map() =~= old(self).map().remove(k@));
                None
            },
        }
    }
}

} // verus!
