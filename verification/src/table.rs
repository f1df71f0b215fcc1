//! A map that remembers the order in which its keys came.
use vstd::prelude::*;

verus! {

/// Keys that can be compared.
pub trait Key: Copy {
    /// Whether two keys are equal.
    fn same(&self, other: &Self) -> (r: bool)
        ensures
            r == (*self == *other),
    ;
}

/// A map from keys to values in the order of insertion.
pub struct Table<K: Key, V> {
    keys: Vec<K>,
    values: Vec<V>,
}

impl<K: Key, V> View for Table<K, V> {
    type V = Map<K, V>;

    closed spec fn view(&self) -> Map<K, V> {
        Map::new(
            |k: K| self.keys@.contains(k),
            |k: K| self.values@[self.keys@.index_of(k)],
        )
    }
}

impl<K: Key, V> Table<K, V> {
    /// The keys, in the order in which they came.
    pub closed spec fn order(&self) -> Seq<K> {
        self.keys@
    }

    /// No key occurs twice, and each has one value.
    pub closed spec fn wf(&self) -> bool {
        &&& self.keys@.len() == self.values@.len()
        &&& self.keys@.no_duplicates()
    }

    /// What the order of keys and the map have to do with each other.
    pub proof fn lemma_order(&self)
        requires
            self.wf(),
        ensures
            self.order().no_duplicates(),
            forall|k: K| #[trigger] self@.dom().contains(k) <==> self.order().contains(k),
            forall|i: int|
                0 <= i < self.order().len() ==> self@.dom().contains(#[trigger] self.order()[i]),
            self@.dom().finite(),
            self@.dom().len() == self.order().len(),
    {
        assert(self@.dom() =~= self.keys@.to_set());
        self.keys@.unique_seq_to_set();
    }

    /// The empty table.
    pub fn new() -> (r: Self)
        ensures
            r.wf(),
            r@ == Map::<K, V>::empty(),
            r.order() == Seq::<K>::empty(),
    {
        let r = Table { keys: Vec::new(), values: Vec::new() };
        proof {
            assert(r@ =~= Map::<K, V>::empty());
        }
        r
    }

    /// The number of keys.
    pub fn len(&self) -> (r: usize)
        requires
            self.wf(),
        ensures
            r == self.order().len(),
            r == self@.dom().len(),
    {
        proof {
            self.lemma_order();
        }
        self.keys.len()
    }

    fn position(&self, key: &K) -> (r: Option<usize>)
        requires
            self.wf(),
        ensures
            match r {
                Some(i) => i < self.keys@.len() && self.keys@[i as int] == *key
                    && self.keys@.index_of(*key) == i,
                None => !self.keys@.contains(*key),
            },
    {
        let mut i: usize = 0;
        while i < self.keys.len()
            invariant
                self.wf(),
                i <= self.keys@.len(),
                forall|j: int| 0 <= j < i ==> self.keys@[j] != *key,
            decreases self.keys@.len() - i,
        {
            if self.keys[i].same(key) {
                return Some(i);
            }
            i = i + 1;
        }
        None
    }

    /// Whether the key is in the table.
    pub fn contains(&self, key: &K) -> (r: bool)
        requires
            self.wf(),
        ensures
            r == self@.dom().contains(*key),
    {
        self.position(key).is_some()
    }

    /// The value of a key.
    pub fn get(&self, key: &K) -> (r: Option<&V>)
        requires
            self.wf(),
        ensures
            match r {
                Some(v) => self@.dom().contains(*key) && *v == self@[*key],
                None => !self@.dom().contains(*key),
            },
    {
        match self.position(key) {
            Some(i) => Some(&self.values[i]),
            None => None,
        }
    }

    /// The key at a place in the order.
    pub fn key_at(&self, i: usize) -> (r: K)
        requires
            self.wf(),
            i < self.order().len(),
        ensures
            r == self.order()[i as int],
            self@.dom().contains(r),
    {
        self.keys[i]
    }

    /// The value at a place in the order.
    pub fn value_at(&self, i: usize) -> (r: &V)
        requires
            self.wf(),
            i < self.order().len(),
        ensures
            *r == self@[self.order()[i as int]],
    {
        proof {
            assert(self.keys@.contains(self.keys@[i as int]));
        }
        &self.values[i]
    }

    /// Gives the key a value, in place of the one that it has.
    pub fn insert(&mut self, key: K, value: V) -> (r: Option<V>)
        requires
            old(self).wf(),
        ensures
            final(self).wf(),
            final(self)@ == old(self)@.insert(key, value),
            final(self).order() == if old(self)@.dom().contains(key) {
                old(self).order()
            } else {
                old(self).order().push(key)
            },
            match r {
                Some(v) => old(self)@.dom().contains(key) && v == old(self)@[key],
                None => !old(self)@.dom().contains(key),
            },
    {
        match self.position(&key) {
            Some(i) => {
                let mut slot = value;
                std::mem::swap(&mut slot, &mut self.values[i]);
                proof {
                    assert(self@ =~= old(self)@.insert(key, value));
                }
                Some(slot)
            },
            None => {
                self.keys.push(key);
                self.values.push(value);
                proof {
                    let before = old(self).keys@;
                    assert(self.keys@ =~= before.push(key));
                    assert(self.keys@[before.len() as int] == key);
                    assert forall|k: K| self.keys@.contains(k) <==> (before.contains(k) || k == key) by {
                        if before.contains(k) {
                            let j = before.index_of(k);
                            assert(self.keys@[j] == k);
                        }
                        if self.keys@.contains(k) && k != key {
                            let j = self.keys@.index_of(k);
                            assert(before[j] == k);
                        }
                    }
                    assert forall|k: K| #[trigger] before.contains(k) implies self.keys@.index_of(k) == before.index_of(k) by {
                        let j = before.index_of(k);
                        assert(self.keys@[j] == k);
                    }
                    assert(self.keys@.index_of(key) == before.len());
                    assert(self@ =~= old(self)@.insert(key, value));
                }
                None
            },
        }
    }

    /// Takes the key and its value out.
    pub fn remove(&mut self, key: &K) -> (r: Option<V>)
        requires
            old(self).wf(),
        ensures
            final(self).wf(),
            final(self)@ == old(self)@.remove(*key),
            old(self)@.dom().contains(*key) ==> final(self).order() == old(self).order().remove(
                old(self).order().index_of(*key),
            ),
            !old(self)@.dom().contains(*key) ==> *final(self) == *old(self),
            match r {
                Some(v) => old(self)@.dom().contains(*key) && v == old(self)@[*key],
                None => !old(self)@.dom().contains(*key),
            },
    {
        match self.position(key) {
            Some(i) => {
                self.keys.remove(i);
                let value = self.values.remove(i);
                proof {
                    let before = old(self).keys@;
                    assert forall|k: K| self.keys@.contains(k) <==> (before.contains(k) && k != *key) by {
                        if before.contains(k) && k != *key {
                            let j = before.index_of(k);
                            assert(self.keys@[if j < i { j } else { j - 1 }] == k);
                        }
                        if self.keys@.contains(k) {
                            let j = self.keys@.index_of(k);
                            assert(before[if j < i { j } else { j + 1 }] == k);
                        }
                    }
                    assert forall|k: K| #[trigger] self.keys@.contains(k) implies ({
                        let j = before.index_of(k);
                        self.keys@.index_of(k) == if j < i { j } else { j - 1 }
                    }) by {
                        let j = before.index_of(k);
                        assert(self.keys@[if j < i { j } else { j - 1 }] == k);
                    }
                    assert(self@ =~= old(self)@.remove(*key));
                }
                Some(value)
            },
            None => {
                proof {
                    assert(self@ =~= old(self)@.remove(*key));
                }
                None
            },
        }
    }

    /// A mutable reference to the value of a key.
    pub fn get_mut(&mut self, key: &K) -> (r: Option<&mut V>)
        requires
            old(self).wf(),
        ensures
            match r {
                Some(v) => {
                    &&& old(self)@.dom().contains(*key)
                    &&& *v == old(self)@[*key]
                    &&& final(self).wf()
                    &&& final(self)@ == old(self)@.insert(*key, *final(v))
                    &&& final(self).order() == old(self).order()
                },
                None => !old(self)@.dom().contains(*key) && *final(self) == *old(self),
            },
    {
        match self.position(key) {
            Some(i) => {
                Some(&mut self.values[i])
            },
            None => None,
        }
    }

    /// Keeps the keys that satisfy the test with their values.
    pub fn retain<F: Fn(&K, &V) -> bool>(&mut self, f: F, p: Ghost<spec_fn(K, V) -> bool>)
        requires
            old(self).wf(),
            forall|k: &K, v: &V| #[trigger] call_requires(f, (k, v)),
            forall|k: &K, v: &V, b: bool| #[trigger]
                call_ensures(f, (k, v), b) ==> b == p@(*k, *v),
        ensures
            final(self).wf(),
            final(self)@ == old(self)@.restrict(
                Set::new(|k: K| old(self)@.dom().contains(k) && p@(k, old(self)@[k])),
            ),
    {
        let ghost before = self@;
        let ghost mut dropped: Set<K> = Set::empty();
        let mut i: usize = 0;
        while i < self.keys.len()
            invariant
                self.wf(),
                i <= self.keys@.len(),
                forall|k: &K, v: &V| #[trigger] call_requires(f, (k, v)),
                forall|k: &K, v: &V, b: bool| #[trigger]
                    call_ensures(f, (k, v), b) ==> b == p@(*k, *v),
                self@ == before.remove_keys(dropped),
                forall|k: K| dropped.contains(k) ==> before.dom().contains(k) && !p@(k, before[k]),
                forall|j: int| 0 <= j < i ==> p@(#[trigger] self.keys@[j], before[self.keys@[j]]),
            decreases self.keys@.len() - i,
        {
            let key = self.keys[i];
            proof {
                assert(self.keys@.contains(key));
                assert(self.keys@.index_of(key) == i);
                assert(self@.dom().contains(key) && self@[key] == self.values@[i as int]);
            }
            if f(&key, &self.values[i]) {
                i = i + 1;
            } else {
                let ghost current = self.keys@;
                self.remove(&key);
                proof {
                    dropped = dropped.insert(key);
                    assert(self@ =~= before.remove_keys(dropped));
                    assert(self.keys@ =~= current.remove(i as int));
                    assert forall|j: int| 0 <= j < i implies p@(#[trigger] self.keys@[j], before[self.keys@[j]]) by {
                        assert(self.keys@[j] == current[j]);
                    }
                }
            }
        }
        proof {
            let kept = Set::new(|k: K| before.dom().contains(k) && p@(k, before[k]));
            assert forall|k: K| #[trigger] self@.dom().contains(k) <==> kept.contains(k) && before.dom().contains(k) by {
                if self@.dom().contains(k) {
                    assert(self.keys@.contains(k));
                    let j = self.keys@.index_of(k);
                    assert(p@(self.keys@[j], before[self.keys@[j]]));
                }
            }
            assert(self@ =~= before.restrict(kept));
        }
    }

    /// Takes all keys out.
    pub fn clear(&mut self)
        ensures
            final(self).wf(),
            final(self)@ == Map::<K, V>::empty(),
            final(self).order() == Seq::<K>::empty(),
    {
        self.keys.clear();
        self.values.clear();
        proof {
            assert(self@ =~= Map::<K, V>::empty());
        }
    }
}

} // verus!
