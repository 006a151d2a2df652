//! A map from byte strings to values, held as a list of distinct keys with
//! their values.
//!
//! The hash maps of the standard library have a model in vstd only for keys
//! that are integers or booleans. The keys here are byte strings: digests,
//! identifiers and texts. So they are kept in a list, whose every property
//! is proved, and a lookup walks the list.

use vstd::prelude::*;
use crate::bytes::bytes_eq;

verus! {

/// A finite map from byte strings to values.
pub struct ByteMap<V> {
    keys: Vec<Vec<u8>>,
    values: Vec<V>,
}

impl<V> ByteMap<V> {
    /// The invariant of the list: no key occurs twice, and every key has
    /// its value.
    pub closed spec fn wf(self) -> bool {
        &&& self.keys@.len() == self.values@.len()
        &&& forall|i: int, j: int|
            0 <= i < j < self.keys@.len() ==> (#[trigger] self.keys@[i])@ != (
            #[trigger] self.keys@[j])@
    }

    /// The number of keys.
    pub closed spec fn count(self) -> nat {
        self.keys@.len()
    }

    /// The key at a position of the list.
    pub closed spec fn key(self, i: int) -> Seq<u8> {
        self.keys@[i]@
    }

    /// The value at a position of the list.
    pub closed spec fn value(self, i: int) -> V {
        self.values@[i]
    }

    /// Whether `key` is in the map.
    pub open spec fn contains(self, key: Seq<u8>) -> bool {
        exists|i: int| 0 <= i < self.count() && #[trigger] self.key(i) == key
    }

    /// The position of `key` in the list.
    pub open spec fn index_of(self, key: Seq<u8>) -> int {
        choose|i: int| 0 <= i < self.count() && #[trigger] self.key(i) == key
    }

    /// The map that the list stands for.
    pub open spec fn map(self) -> Map<Seq<u8>, V> {
        Map::new(|k: Seq<u8>| self.contains(k), |k: Seq<u8>| self.value(self.index_of(k)))
    }

    /// Every key of the map stands at a position of the list, with its
    /// value.
    pub proof fn lemma_keys_have_positions(self)
        requires
            self.wf(),
        ensures
            forall|k: Seq<u8>| #[trigger]
                self.map().contains_key(k) ==> 0 <= self.index_of(k) < self.count() && self.key(
                    self.index_of(k),
                ) == k && self.value(self.index_of(k)) == self.map()[k],
    {
    }

    /// Every position of the list holds a key of the map with its value,
    /// and no two positions hold the same key.
    pub proof fn lemma_positions(self)
        requires
            self.wf(),
        ensures
            forall|i: int|
                0 <= i < self.count() ==> self.map().contains_key(#[trigger] self.key(i))
                    && self.map()[self.key(i)] == self.value(i),
            forall|i: int, j: int|
                0 <= i < self.count() && 0 <= j < self.count() && #[trigger] self.key(i)
                    == #[trigger] self.key(j) ==> i == j,
    {
        assert forall|i: int, j: int|
            0 <= i < self.count() && 0 <= j < self.count() && #[trigger] self.key(i)
                == #[trigger] self.key(j) implies i == j by {
            if i < j {
                assert(self.keys@[i]@ != self.keys@[j]@);
            } else if j < i {
                assert(self.keys@[j]@ != self.keys@[i]@);
            }
        }
        assert forall|i: int| 0 <= i < self.count() implies self.map().contains_key(
            #[trigger] self.key(i),
        ) && self.map()[self.key(i)] == self.value(i) by {
            let k = self.key(i);
            assert(self.contains(k));
            let j = self.index_of(k);
            assert(self.key(j) == self.key(i));
        }
    }

    /// The number of keys in the list is the size of the map.
    pub proof fn lemma_count_is_size(self)
        requires
            self.wf(),
        ensures
            self.map().dom().finite(),
            self.map().dom().len() == self.count(),
    {
        self.lemma_positions();
        let keys = Seq::new(self.count(), |i: int| self.key(i));
        assert(keys.no_duplicates()) by {
            assert forall|i: int, j: int|
                0 <= i < keys.len() && 0 <= j < keys.len() && i != j implies keys[i]
                != keys[j] by {
                assert(keys[i] == self.key(i) && keys[j] == self.key(j));
            }
        }
        keys.unique_seq_to_set();
        vstd::seq_lib::seq_to_set_is_finite(keys);
        assert forall|k: Seq<u8>| self.map().dom().contains(k) <==> keys.to_set().contains(
            k,
        ) by {
            if self.map().dom().contains(k) {
                let i = self.index_of(k);
                assert(keys[i] == k);
            }
            if keys.to_set().contains(k) {
                let i = choose|i: int| 0 <= i < keys.len() && keys[i] == k;
                assert(self.key(i) == k);
            }
        }
        assert(self.map().dom() =~= keys.to_set());
    }

    /// An empty map.
    pub fn new() -> (m: ByteMap<V>)
        ensures
            m.wf(),
            m.count() == 0,
            m.map() == Map::<Seq<u8>, V>::empty(),
    {
        let m = ByteMap { keys: Vec::new(), values: Vec::new() };
        assert(m.map() =~= Map::<Seq<u8>, V>::empty());
        m
    }

    /// The number of keys.
    pub fn len(&self) -> (n: usize)
        ensures
            n == self.count(),
    {
        self.keys.len()
    }

    /// The position of `key` in the list, where the map has it.
    pub fn position(&self, key: &[u8]) -> (pos: Option<usize>)
        requires
            self.wf(),
        ensures
            pos is Some <==> self.contains(key@),
            pos matches Some(i) ==> i < self.count() && self.key(i as int) == key@ && self.index_of(
                key@,
            ) == i,
    {
        proof {
            self.lemma_positions();
        }
        let mut i: usize = 0;
        while i < self.keys.len()
            invariant
                self.wf(),
                i <= self.keys@.len(),
                forall|j: int| 0 <= j < i ==> self.key(j) != key@,
            decreases self.keys@.len() - i,
        {
            if bytes_eq(self.keys[i].as_slice(), key) {
                proof {
                    self.lemma_positions();
                    assert(self.key(i as int) == key@);
                    assert(self.key(self.index_of(key@)) == self.key(i as int));
                }
                return Some(i);
            }
            i += 1;
        }
        None
    }

    /// The key at position `i`.
    pub fn key_at(&self, i: usize) -> (key: &Vec<u8>)
        requires
            self.wf(),
            i < self.count(),
        ensures
            key@ == self.key(i as int),
            self.map().contains_key(key@),
    {
        proof {
            self.lemma_positions();
            assert(self.map().contains_key(self.key(i as int)));
        }
        &self.keys[i]
    }

    /// The value at position `i`.
    pub fn value_at(&self, i: usize) -> (value: &V)
        requires
            self.wf(),
            i < self.count(),
        ensures
            *value == self.value(i as int),
            self.map()[self.key(i as int)] == *value,
    {
        proof {
            self.lemma_positions();
        }
        &self.values[i]
    }

    /// The value under `key`, where the map has it.
    pub fn get(&self, key: &[u8]) -> (value: Option<&V>)
        requires
            self.wf(),
        ensures
            value is Some <==> self.map().contains_key(key@),
            value matches Some(v) ==> *v == self.map()[key@],
    {
        match self.position(key) {
            Some(i) => Some(self.value_at(i)),
            None => None,
        }
    }

    /// Puts `value` under `key`, in place of what was there.
    pub fn insert(&mut self, key: Vec<u8>, value: V)
        requires
            old(self).wf(),
        ensures
            final(self).wf(),
            final(self).map() == old(self).map().insert(key@, value),
            final(self).count() == if old(self).map().contains_key(key@) {
                old(self).count()
            } else {
                old(self).count() + 1
            },
    {
        let ghost before = *self;
        let ghost n = before.count() as int;
        match self.position(key.as_slice()) {
            Some(i) => {
                self.values.set(i, value);
                proof {
                    assert(self.wf());
                    before.lemma_positions();
                    self.lemma_positions();
                    assert forall|k: Seq<u8>| self.contains(k) <==> before.contains(k) by {
                        if self.contains(k) {
                            let j = choose|j: int| 0 <= j < self.count() && self.key(j) == k;
                            assert(before.key(j) == k);
                        }
                        if before.contains(k) {
                            let j = choose|j: int| 0 <= j < before.count() && before.key(j) == k;
                            assert(self.key(j) == k);
                        }
                    }
                    assert forall|k: Seq<u8>| #[trigger]
                        self.map().contains_key(k) implies self.map()[k] == before.map().insert(
                        key@,
                        value,
                    )[k] by {
                        let j = choose|j: int| 0 <= j < self.count() && self.key(j) == k;
                        assert(self.map()[self.key(j)] == self.value(j));
                        assert(before.key(j) == k);
                        assert(before.map()[before.key(j)] == before.value(j));
                        if j == i {
                            assert(before.key(i as int) == key@);
                        } else {
                            assert(k != key@) by {
                                if k == key@ {
                                    assert(before.key(j) == before.key(i as int));
                                }
                            }
                        }
                    }
                    assert(self.map() =~= before.map().insert(key@, value));
                }
            },
            None => {
                self.keys.push(key);
                self.values.push(value);
                proof {
                    assert forall|a: int, b: int| 0 <= a < b < self.keys@.len() implies (
                    #[trigger] self.keys@[a])@ != (#[trigger] self.keys@[b])@ by {
                        if b < n {
                            assert(before.keys@[a]@ != before.keys@[b]@);
                        } else {
                            assert(before.key(a) != key@);
                        }
                    }
                    assert(self.wf());
                    before.lemma_positions();
                    self.lemma_positions();
                    assert(self.key(n) == key@);
                    assert forall|k: Seq<u8>| self.contains(k) <==> (k == key@ || before.contains(
                        k,
                    )) by {
                        if self.contains(k) {
                            let j = choose|j: int| 0 <= j < self.count() && self.key(j) == k;
                            if j < n {
                                assert(before.key(j) == k);
                            }
                        }
                        if before.contains(k) {
                            let j = choose|j: int| 0 <= j < before.count() && before.key(j) == k;
                            assert(self.key(j) == k);
                        }
                    }
                    assert forall|k: Seq<u8>| #[trigger]
                        self.map().contains_key(k) implies self.map()[k] == before.map().insert(
                        key@,
                        value,
                    )[k] by {
                        let j = choose|j: int| 0 <= j < self.count() && self.key(j) == k;
                        assert(self.map()[self.key(j)] == self.value(j));
                        if j < n {
                            assert(before.key(j) == k);
                            assert(before.map()[before.key(j)] == before.value(j));
                        }
                    }
                    assert(self.map() =~= before.map().insert(key@, value));
                }
            },
        }
    }

    /// Takes out the key at position `i` with its value.
    pub fn remove_at(&mut self, i: usize) -> (value: V)
        requires
            old(self).wf(),
            i < old(self).count(),
        ensures
            final(self).wf(),
            final(self).map() == old(self).map().remove(old(self).key(i as int)),
            final(self).count() == old(self).count() - 1,
            value == old(self).value(i as int),
            forall|j: int|
                0 <= j < i ==> final(self).key(j) == old(self).key(j) && final(self).value(j)
                    == old(self).value(j),
            forall|j: int|
                i <= j < final(self).count() ==> final(self).key(j) == old(self).key(j + 1)
                    && final(self).value(j) == old(self).value(j + 1),
    {
        let ghost before = *self;
        let ghost gone = before.key(i as int);
        self.keys.remove(i);
        let value = self.values.remove(i);
        proof {
            assert forall|a: int, b: int| 0 <= a < b < self.keys@.len() implies (
            #[trigger] self.keys@[a])@ != (#[trigger] self.keys@[b])@ by {
                let a0 = if a < i { a } else { a + 1 };
                let b0 = if b < i { b } else { b + 1 };
                assert(before.keys@[a0]@ != before.keys@[b0]@);
            }
            assert(self.wf());
            before.lemma_positions();
            self.lemma_positions();
            assert forall|k: Seq<u8>| self.contains(k) <==> (k != gone && before.contains(k)) by {
                if self.contains(k) {
                    let j = choose|j: int| 0 <= j < self.count() && self.key(j) == k;
                    let j0 = if j < i { j } else { j + 1 };
                    assert(before.key(j0) == k);
                    if k == gone {
                        assert(before.key(j0) == before.key(i as int));
                    }
                }
                if k != gone && before.contains(k) {
                    let j = choose|j: int| 0 <= j < before.count() && before.key(j) == k;
                    let j1 = if j < i { j } else { j - 1 };
                    assert(self.key(j1) == k);
                }
            }
            assert forall|k: Seq<u8>| #[trigger] self.map().contains_key(k) implies self.map()[k]
                == before.map()[k] by {
                let j = choose|j: int| 0 <= j < self.count() && self.key(j) == k;
                let j0 = if j < i { j } else { j + 1 };
                assert(self.map()[self.key(j)] == self.value(j));
                assert(before.key(j0) == k);
                assert(before.map()[before.key(j0)] == before.value(j0));
            }
            assert(self.map() =~= before.map().remove(gone));
        }
        value
    }

    /// Takes out `key` with its value, where the map has it.
    pub fn remove(&mut self, key: &[u8]) -> (value: Option<V>)
        requires
            old(self).wf(),
        ensures
            final(self).wf(),
            final(self).map() == old(self).map().remove(key@),
            value is Some <==> old(self).map().contains_key(key@),
            value matches Some(v) ==> v == old(self).map()[key@],
            final(self).count() == if old(self).map().contains_key(key@) {
                old(self).count() - 1
            } else {
                old(self).count() as int
            },
    {
        proof {
            self.lemma_positions();
        }
        match self.position(key) {
            Some(i) => Some(self.remove_at(i)),
            None => {
                assert(self.map() =~= self.map().remove(key@));
                None
            },
        }
    }
}

} // verus!
