//! An insertion-ordered table, the in-memory stand-in for a durable
//! key-value ledger.

use crate::hashlock::bytes_equal;
use vstd::prelude::*;

verus! {

/// A key that can be looked up by its mathematical content.
pub trait Key: View + Sized {
    /// Whether two keys have the same content.
    fn same(&self, other: &Self) -> (r: bool)
        ensures
            r == (self@ == other@),
    ;
}

impl Key for String {
    fn same(&self, other: &Self) -> (r: bool) {
        *self == *other
    }
}

impl Key for Vec<u8> {
    fn same(&self, other: &Self) -> (r: bool) {
        bytes_equal(self.as_slice(), other.as_slice())
    }
}

/// In a sequence without duplicates, an element is found at its own index.
pub proof fn lemma_index_of_unique<A>(s: Seq<A>, i: int)
    requires
        s.no_duplicates(),
        0 <= i < s.len(),
    ensures
        s.index_of(s[i]) == i,
{
    assert(s.contains(s[i]));
}

/// A map from keys to values that remembers the order in which keys were
/// first inserted.
pub struct Table<K, V> {
    keys: Vec<K>,
    values: Vec<V>,
}

impl<K: Key, V> Table<K, V> {
    /// The keys, in order of first insertion.
    pub closed spec fn keys(&self) -> Seq<K::V> {
        self.keys@.map_values(|k: K| k@)
    }

    /// The values, each at the position of its key.
    pub closed spec fn values(&self) -> Seq<V> {
        self.values@
    }

    /// No key occurs twice and every key has a value.
    pub open spec fn wf(&self) -> bool {
        &&& self.keys().len() == self.values().len()
        &&& self.keys().no_duplicates()
    }

    /// The table as a map.
    pub open spec fn map(&self) -> Map<K::V, V> {
        Map::new(
            |k: K::V| self.keys().contains(k),
            |k: K::V| self.values()[self.keys().index_of(k)],
        )
    }

    /// An empty table.
    pub fn new() -> (t: Self)
        ensures
            t.wf(),
            t.keys() == Seq::<K::V>::empty(),
            t.values() == Seq::<V>::empty(),
            t.map() == Map::<K::V, V>::empty(),
    {
        let t = Table { keys: Vec::new(), values: Vec::new() };
        assert(t.keys() =~= Seq::<K::V>::empty());
        assert(t.map() =~= Map::<K::V, V>::empty());
        t
    }

    /// Number of entries.
    pub fn len(&self) -> (n: usize)
        requires
            self.wf(),
        ensures
            n == self.keys().len(),
    {
        self.keys.len()
    }

    /// The key at position `i` of the insertion order.
    pub fn key_at(&self, i: usize) -> (k: &K)
        requires
            self.wf(),
            i < self.keys().len(),
        ensures
            k@ == self.keys()[i as int],
    {
        &self.keys[i]
    }

    /// The value at position `i` of the insertion order.
    pub fn value_at(&self, i: usize) -> (v: &V)
        requires
            self.wf(),
            i < self.keys().len(),
        ensures
            *v == self.values()[i as int],
            *v == self.map()[self.keys()[i as int]],
    {
        proof {
            lemma_index_of_unique(self.keys(), i as int);
        }
        &self.values[i]
    }

    /// Position of `key` in the insertion order, if present.
    pub fn position(&self, key: &K) -> (r: Option<usize>)
        requires
            self.wf(),
        ensures
            match r {
                Some(i) => i < self.keys().len() && self.keys()[i as int] == key@,
                None => !self.keys().contains(key@),
            },
    {
        let mut i: usize = 0;
        while i < self.keys.len()
            invariant
                i <= self.keys.len(),
                forall|j: int| 0 <= j < i ==> self.keys()[j] != key@,
            decreases self.keys.len() - i,
        {
            if self.keys[i].same(key) {
                return Some(i);
            }
            i += 1;
        }
        None
    }

    /// The value stored under `key`, if any.
    pub fn get(&self, key: &K) -> (r: Option<&V>)
        requires
            self.wf(),
        ensures
            match r {
                Some(v) => self.map().contains_key(key@) && *v == self.map()[key@],
                None => !self.map().contains_key(key@),
            },
    {
        match self.position(key) {
            Some(i) => {
                proof {
                    lemma_index_of_unique(self.keys(), i as int);
                }
                Some(&self.values[i])
            },
            None => None,
        }
    }

    /// Stores `value` under `key`, replacing any earlier value and keeping
    /// the key's place in the order.
    pub fn insert(&mut self, key: K, value: V)
        requires
            old(self).wf(),
        ensures
            final(self).wf(),
            final(self).map() == old(self).map().insert(key@, value),
            final(self).keys() == if old(self).keys().contains(key@) {
                old(self).keys()
            } else {
                old(self).keys().push(key@)
            },
    {
        match self.position(&key) {
            Some(i) => {
                self.values.set(i, value);
                proof {
                    lemma_index_of_unique(self.keys(), i as int);
                    assert forall|k: K::V| self.keys().contains(k) implies #[trigger] self.map()[k]
                        == old(self).map().insert(key@, value)[k] by {
                        let j = self.keys().index_of(k);
                        lemma_index_of_unique(self.keys(), j);
                    }
                    assert(final(self).map() =~= old(self).map().insert(key@, value));
                }
            },
            None => {
                self.keys.push(key);
                self.values.push(value);
                proof {
                    assert(self.keys() =~= old(self).keys().push(key@));
                    assert forall|k: K::V| self.keys().contains(k) <==> old(self).keys().contains(k)
                        || k == key@ by {
                        vstd::seq_lib::lemma_seq_contains_after_push(old(self).keys(), key@, k);
                    }
                    assert forall|k: K::V| self.keys().contains(k) implies #[trigger] self.map()[k]
                        == old(self).map().insert(key@, value)[k] by {
                        let j = self.keys().index_of(k);
                        lemma_index_of_unique(self.keys(), j);
                        if k != key@ {
                            lemma_index_of_unique(old(self).keys(), old(self).keys().index_of(k));
                        }
                    }
                    assert(final(self).map() =~= old(self).map().insert(key@, value));
                }
            },
        }
    }
}

} // verus!
