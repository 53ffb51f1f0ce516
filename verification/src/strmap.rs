//! A small map from text keys to values that remembers the order in
//! which its keys were first inserted.

use vstd::prelude::*;

verus! {

/// A map keyed by text. No key occurs twice; entries stay in the order
/// in which their keys were first inserted, and inserting under a key
/// that is present replaces the value in place.
#[derive(Debug)]
pub struct StrMap<V> {
    keys: Vec<String>,
    vals: Vec<V>,
}

impl<V> StrMap<V> {
    /// The keys, in insertion order.
    pub closed spec fn keys(&self) -> Seq<Seq<char>> {
        Seq::new(self.keys@.len(), |i: int| self.keys@[i]@)
    }

    /// The values, each at the position of its key.
    pub closed spec fn values(&self) -> Seq<V> {
        self.vals@
    }

    /// Every key has one value and no key occurs twice.
    #[verifier::type_invariant]
    pub open spec fn wf(&self) -> bool {
        &&& self.keys().len() == self.values().len()
        &&& self.keys().no_duplicates()
    }

    /// The position of `key`, if it is present.
    pub open spec fn index_of(&self, key: Seq<char>) -> Option<int> {
        if self.keys().contains(key) {
            Some(self.keys().index_of(key))
        } else {
            None
        }
    }

    /// The value stored under `key`, if any.
    pub open spec fn lookup(&self, key: Seq<char>) -> Option<V> {
        if self.keys().contains(key) {
            Some(self.values()[self.keys().index_of(key)])
        } else {
            None
        }
    }

    /// In a well-formed map a key stands at one position only.
    pub proof fn lemma_position_unique(&self, key: Seq<char>, i: int)
        requires
            self.wf(),
            0 <= i < self.keys().len(),
            self.keys()[i] == key,
        ensures
            self.keys().contains(key),
            self.index_of(key) == Some(i),
            self.lookup(key) == Some(self.values()[i]),
    {
        let j = self.keys().index_of(key);
        assert(self.keys()[j] == key);
    }

    /// Whether `self` is `before` with `value` stored under `key`: in
    /// place where the key was present, else as a new last entry.
    pub open spec fn is_insert(&self, before: Self, key: Seq<char>, value: V) -> bool {
        match before.index_of(key) {
            Some(i) => {
                &&& self.keys() == before.keys()
                &&& self.values() == before.values().update(i, value)
            },
            None => {
                &&& self.keys() == before.keys().push(key)
                &&& self.values() == before.values().push(value)
            },
        }
    }

    /// After an insertion the key leads to the new value and every
    /// other key to what it led to before.
    pub proof fn lemma_insert_lookup(&self, before: Self, key: Seq<char>, value: V)
        requires
            self.wf(),
            before.wf(),
            self.is_insert(before, key, value),
        ensures
            self.lookup(key) == Some(value),
            forall|other: Seq<char>| other != key ==> self.lookup(other) == before.lookup(other),
    {
        if before.keys().contains(key) {
            let i = before.keys().index_of(key);
            self.lemma_position_unique(key, i);
        } else {
            self.lemma_position_unique(key, before.keys().len() as int);
        }
        assert forall|other: Seq<char>| other != key implies self.lookup(other) == before.lookup(
            other,
        ) by {
            if before.keys().contains(other) {
                let j = before.keys().index_of(other);
                assert(self.keys()[j] == other);
                self.lemma_position_unique(other, j);
            } else if self.keys().contains(other) {
                let j = self.keys().index_of(other);
                assert(before.keys()[j] == other);
            }
        }
    }

    /// After the value at a position is replaced, the key of that
    /// position leads to the new value and every other key to what it
    /// led to before.
    pub proof fn lemma_update_lookup(&self, before: Self, i: int, value: V)
        requires
            self.wf(),
            before.wf(),
            0 <= i < before.keys().len(),
            self.keys() == before.keys(),
            self.values() == before.values().update(i, value),
        ensures
            self.lookup(before.keys()[i]) == Some(value),
            forall|other: Seq<char>|
                other != before.keys()[i] ==> self.lookup(other) == before.lookup(other),
    {
        self.lemma_position_unique(before.keys()[i], i);
        assert forall|other: Seq<char>| other != before.keys()[i] implies self.lookup(other)
            == before.lookup(other) by {
            if before.keys().contains(other) {
                let j = before.keys().index_of(other);
                self.lemma_position_unique(other, j);
            }
        }
    }

    /// An empty map.
    pub fn new() -> (m: Self)
        ensures
            m.keys() == Seq::<Seq<char>>::empty(),
            m.values() == Seq::<V>::empty(),
            m.wf(),
    {
        let m = StrMap { keys: Vec::new(), vals: Vec::new() };
        assert(m.keys() =~= Seq::<Seq<char>>::empty());
        m
    }

    /// The number of entries.
    pub fn len(&self) -> (n: usize)
        ensures
            n == self.keys().len(),
            n == self.values().len(),
    {
        proof {
            use_type_invariant(self);
        }
        self.keys.len()
    }

    /// Whether the map has no entry.
    pub fn is_empty(&self) -> (b: bool)
        ensures
            b == (self.keys().len() == 0),
    {
        self.keys.len() == 0
    }

    /// The position of `key`, if it is present.
    pub fn position(&self, key: &str) -> (r: Option<usize>)
        ensures
            self.wf(),
            match r {
                Some(i) => self.index_of(key@) == Some(i as int) && i < self.keys().len(),
                None => self.index_of(key@) is None,
            },
    {
        proof {
            use_type_invariant(self);
        }
        let probe = String::from_str(key);
        let mut i: usize = 0;
        while i < self.keys.len()
            invariant
                i <= self.keys.len(),
                self.wf(),
                probe@ == key@,
                forall|j: int| 0 <= j < i ==> self.keys()[j] != key@,
            decreases self.keys.len() - i,
        {
            if self.keys[i] == probe {
                proof {
                    self.lemma_position_unique(key@, i as int);
                }
                return Some(i);
            }
            i += 1;
        }
        None
    }

    /// Whether `key` is present.
    pub fn contains_key(&self, key: &str) -> (b: bool)
        ensures
            b == self.keys().contains(key@),
    {
        self.position(key).is_some()
    }

    /// The value stored under `key`, if any.
    pub fn get(&self, key: &str) -> (r: Option<&V>)
        ensures
            match r {
                Some(v) => self.lookup(key@) == Some(*v),
                None => self.lookup(key@) is None,
            },
    {
        match self.position(key) {
            Some(i) => {
                proof {
                    use_type_invariant(self);
                }
                Some(&self.vals[i])
            },
            None => None,
        }
    }

    /// The key at position `i`.
    pub fn key_at(&self, i: usize) -> (k: &String)
        requires
            i < self.keys().len(),
        ensures
            k@ == self.keys()[i as int],
    {
        &self.keys[i]
    }

    /// The value at position `i`.
    pub fn value_at(&self, i: usize) -> (v: &V)
        requires
            i < self.values().len(),
        ensures
            *v == self.values()[i as int],
    {
        &self.vals[i]
    }

    /// Replaces the value at position `i`.
    pub fn set_at(&mut self, i: usize, value: V)
        requires
            i < old(self).values().len(),
        ensures
            final(self).keys() == old(self).keys(),
            final(self).values() == old(self).values().update(i as int, value),
            final(self).wf(),
    {
        proof {
            use_type_invariant(&*self);
        }
        let mut taken = StrMap::new();
        core::mem::swap(self, &mut taken);
        let StrMap { keys, mut vals } = taken;
        vals.set(i, value);
        *self = StrMap { keys, vals };
        proof {
            assert(self.keys() =~= old(self).keys());
        }
    }

    /// Puts `value` at position `i` and hands out the value that was
    /// there.
    pub fn replace_at(&mut self, i: usize, value: V) -> (previous: V)
        requires
            i < old(self).values().len(),
        ensures
            previous == old(self).values()[i as int],
            final(self).keys() == old(self).keys(),
            final(self).values() == old(self).values().update(i as int, value),
            final(self).wf(),
    {
        proof {
            use_type_invariant(&*self);
        }
        let mut taken = StrMap::new();
        core::mem::swap(self, &mut taken);
        let StrMap { keys, mut vals } = taken;
        vals.push(value);
        let previous = vals.swap_remove(i);
        proof {
            assert(vals@ =~= old(self).values().update(i as int, value));
        }
        *self = StrMap { keys, vals };
        proof {
            assert(self.keys() =~= old(self).keys());
        }
        previous
    }

    /// Stores `value` under `key`: in place of the value that was there,
    /// or as a new last entry.
    pub fn insert(&mut self, key: String, value: V)
        ensures
            final(self).wf(),
            old(self).wf(),
            final(self).is_insert(*old(self), key@, value),
            final(self).lookup(key@) == Some(value),
            forall|other: Seq<char>|
                other != key@ ==> final(self).lookup(other) == old(self).lookup(other),
    {
        proof {
            use_type_invariant(&*self);
        }
        let found = self.position(key.as_str());
        let mut taken = StrMap::new();
        core::mem::swap(self, &mut taken);
        let StrMap { mut keys, mut vals } = taken;
        match found {
            Some(i) => {
                vals.set(i, value);
                *self = StrMap { keys, vals };
                proof {
                    assert(self.keys() =~= old(self).keys());
                }
            },
            None => {
                let ghost k = key@;
                keys.push(key);
                vals.push(value);
                proof {
                    let after = StrMap { keys, vals };
                    assert(after.keys() =~= old(self).keys().push(k));
                    assert(!old(self).keys().contains(k));
                }
                *self = StrMap { keys, vals };
            },
        }
        proof {
            self.lemma_insert_lookup(*old(self), key@, value);
        }
    }
}

impl<V: Clone> Clone for StrMap<V> {
    /// A map with the same keys, in the same order, and a clone of
    /// each value.
    fn clone(&self) -> (m: Self)
        ensures
            m.wf(),
            m.keys() == self.keys(),
            m.values().len() == self.values().len(),
            forall|i: int|
                0 <= i < self.values().len() ==> cloned(
                    #[trigger] self.values()[i],
                    m.values()[i],
                ),
    {
        proof {
            use_type_invariant(self);
        }
        let mut keys: Vec<String> = Vec::new();
        let mut vals: Vec<V> = Vec::new();
        let mut i: usize = 0;
        while i < self.keys.len()
            invariant
                i <= self.keys.len(),
                self.wf(),
                keys@.len() == i,
                vals@.len() == i,
                forall|j: int| 0 <= j < i ==> (#[trigger] keys@[j])@ == self.keys()[j],
                forall|j: int| 0 <= j < i ==> cloned(#[trigger] self.values()[j], vals@[j]),
            decreases self.keys.len() - i,
        {
            keys.push(self.keys[i].clone());
            vals.push(self.vals[i].clone());
            i += 1;
        }
        proof {
            let m = StrMap { keys, vals };
            assert(m.keys() =~= self.keys());
        }
        StrMap { keys, vals }
    }
}

} // verus!
