//! A keyed record store: the in-memory form of each persisted map of the node
//! (payments, swaps, channel identifiers), keyed by 32-byte identifiers.

use vstd::prelude::*;

verus! {

/// A 32-byte identifier: a payment hash, payment id, channel id or contract id.
pub type Id32 = [u8; 32];

/// Compares two identifiers byte by byte.
pub fn same_id(a: &Id32, b: &Id32) -> (r: bool)
    ensures
        r == (*a == *b),
{
    let mut i: usize = 0;
    while i < 32
        invariant
            i <= 32,
            forall|j: int| 0 <= j < i ==> a[j] == b[j],
        decreases 32 - i,
    {
        if a[i] != b[i] {
            return false;
        }
        i += 1;
    }
    assert(*a =~= *b);
    true
}

/// Compares two optional identifiers.
pub fn same_opt_id(a: &Option<Id32>, b: &Option<Id32>) -> (r: bool)
    ensures
        r == (*a == *b),
{
    match (a, b) {
        (Some(x), Some(y)) => same_id(x, y),
        (None, None) => true,
        _ => false,
    }
}

/// One record of a [`Ledger`].
pub struct Entry<V> {
    pub key: Id32,
    pub value: V,
}

/// A map from identifiers to records, each key held once.
pub struct Ledger<V> {
    entries: Vec<Entry<V>>,
    contents: Ghost<Map<Id32, V>>,
}

impl<V> View for Ledger<V> {
    type V = Map<Id32, V>;

    closed spec fn view(&self) -> Map<Id32, V> {
        self.contents@
    }
}

impl<V: Copy> Ledger<V> {
    /// The keys in storage order.
    pub closed spec fn keys_seq(&self) -> Seq<Id32> {
        self.entries@.map_values(|e: Entry<V>| e.key)
    }

    /// The storage holds each key once and agrees with the view.
    pub closed spec fn wf(&self) -> bool {
        &&& forall|i: int, j: int|
            0 <= i < j < self.entries@.len() ==> #[trigger] self.entries@[i].key
                != #[trigger] self.entries@[j].key
        &&& forall|i: int|
            0 <= i < self.entries@.len() ==> self.contents@.contains_key(
                #[trigger] self.entries@[i].key,
            ) && self.contents@[self.entries@[i].key] == self.entries@[i].value
        &&& forall|k: Id32|
            #[trigger] self.contents@.contains_key(k) ==> exists|i: int|
                0 <= i < self.entries@.len() && #[trigger] self.entries@[i].key == k
    }

    /// What the storage order says of the view: each listed key is present,
    /// each present key is listed, and no key is listed twice.
    pub proof fn lemma_keys(&self)
        requires
            self.wf(),
        ensures
            forall|i: int|
                0 <= i < self.keys_seq().len() ==> self@.contains_key(
                    #[trigger] self.keys_seq()[i],
                ),
            forall|k: Id32|
                #[trigger] self@.contains_key(k) ==> exists|i: int|
                    0 <= i < self.keys_seq().len() && #[trigger] self.keys_seq()[i] == k,
            forall|i: int, j: int|
                0 <= i < j < self.keys_seq().len() ==> #[trigger] self.keys_seq()[i]
                    != #[trigger] self.keys_seq()[j],
    {
        assert forall|k: Id32| #[trigger] self@.contains_key(k) implies exists|i: int|
            0 <= i < self.keys_seq().len() && #[trigger] self.keys_seq()[i] == k by {
            let i = choose|i: int| 0 <= i < self.entries@.len() && self.entries@[i].key == k;
            assert(self.keys_seq()[i] == k);
        }
    }

    /// An empty store.
    pub fn new() -> (r: Self)
        ensures
            r.wf(),
            r@ == Map::<Id32, V>::empty(),
            r.keys_seq().len() == 0,
    {
        Ledger { entries: Vec::new(), contents: Ghost(Map::empty()) }
    }

    /// The number of records.
    pub fn len(&self) -> (r: usize)
        ensures
            r == self.keys_seq().len(),
    {
        self.entries.len()
    }

    fn find(&self, k: &Id32) -> (r: Option<usize>)
        requires
            self.wf(),
        ensures
            match r {
                Some(i) => i < self.entries@.len() && self.entries@[i as int].key == *k,
                None => !self@.contains_key(*k),
            },
    {
        let mut i: usize = 0;
        while i < self.entries.len()
            invariant
                self.wf(),
                i <= self.entries@.len(),
                forall|j: int| 0 <= j < i ==> self.entries@[j].key != *k,
            decreases self.entries@.len() - i,
        {
            if same_id(&self.entries[i].key, k) {
                return Some(i);
            }
            i += 1;
        }
        None
    }

    /// Whether a record is stored under `k`.
    pub fn contains_key(&self, k: &Id32) -> (r: bool)
        requires
            self.wf(),
        ensures
            r == self@.contains_key(*k),
    {
        self.find(k).is_some()
    }

    /// The record stored under `k`, if any.
    pub fn get(&self, k: &Id32) -> (r: Option<V>)
        requires
            self.wf(),
        ensures
            r == (if self@.contains_key(*k) {
                Some(self@[*k])
            } else {
                None
            }),
    {
        match self.find(k) {
            Some(i) => Some(self.entries[i].value),
            None => None,
        }
    }

    /// Stores `v` under `k`, replacing any earlier record.
    pub fn insert(&mut self, k: Id32, v: V)
        requires
            old(self).wf(),
        ensures
            final(self).wf(),
            final(self)@ == old(self)@.insert(k, v),
    {
        let ghost m0 = self.contents@;
        match self.find(&k) {
            Some(i) => {
                self.entries.set(i, Entry { key: k, value: v });
                self.contents = Ghost(m0.insert(k, v));
                assert forall|q: Id32| #[trigger] self.contents@.contains_key(q) implies exists|
                    j: int,
                |
                    0 <= j < self.entries@.len() && #[trigger] self.entries@[j].key == q by {
                    let j = choose|j: int|
                        0 <= j < old(self).entries@.len() && old(self).entries@[j].key == q;
                    assert(self.entries@[j].key == q);
                }
            },
            None => {
                self.entries.push(Entry { key: k, value: v });
                self.contents = Ghost(m0.insert(k, v));
                assert forall|q: Id32| #[trigger] self.contents@.contains_key(q) implies exists|
                    i: int,
                |
                    0 <= i < self.entries@.len() && #[trigger] self.entries@[i].key == q by {
                    if q != k {
                        let i = choose|i: int|
                            0 <= i < old(self).entries@.len() && old(self).entries@[i].key == q;
                        assert(self.entries@[i].key == q);
                    } else {
                        assert(self.entries@[self.entries@.len() - 1].key == q);
                    }
                }
            },
        }
    }

    /// Removes the record stored under `k`, if any.
    pub fn remove(&mut self, k: &Id32)
        requires
            old(self).wf(),
        ensures
            final(self).wf(),
            final(self)@ == old(self)@.remove(*k),
    {
        let ghost m0 = self.contents@;
        match self.find(k) {
            Some(i) => {
                let ghost e0 = self.entries@;
                self.entries.remove(i);
                self.contents = Ghost(m0.remove(*k));
                assert forall|q: Id32| #[trigger] self.contents@.contains_key(q) implies exists|
                    j: int,
                |
                    0 <= j < self.entries@.len() && #[trigger] self.entries@[j].key == q by {
                    let j = choose|j: int| 0 <= j < e0.len() && e0[j].key == q;
                    if j < i {
                        assert(self.entries@[j].key == q);
                    } else {
                        assert(self.entries@[j - 1].key == q);
                    }
                }
            },
            None => {
                assert(m0.remove(*k) =~= m0);
            },
        }
    }

    /// The key at position `i` of the storage order.
    pub fn key_at(&self, i: usize) -> (r: Id32)
        requires
            self.wf(),
            i < self.keys_seq().len(),
        ensures
            r == self.keys_seq()[i as int],
    {
        self.entries[i].key
    }

    /// The record at position `i` of the storage order.
    pub fn value_at(&self, i: usize) -> (r: V)
        requires
            self.wf(),
            i < self.keys_seq().len(),
        ensures
            r == self@[self.keys_seq()[i as int]],
    {
        self.entries[i].value
    }

    /// Replaces the record at position `i`, keeping the storage order.
    pub fn set_value_at(&mut self, i: usize, v: V)
        requires
            old(self).wf(),
            i < old(self).keys_seq().len(),
        ensures
            final(self).wf(),
            final(self).keys_seq() == old(self).keys_seq(),
            final(self)@ == old(self)@.insert(old(self).keys_seq()[i as int], v),
    {
        let k = self.entries[i].key;
        let ghost m0 = self.contents@;
        self.entries.set(i, Entry { key: k, value: v });
        self.contents = Ghost(m0.insert(k, v));
        assert(self.keys_seq() =~= old(self).keys_seq());
        assert forall|q: Id32| #[trigger] self.contents@.contains_key(q) implies exists|j: int|
            0 <= j < self.entries@.len() && #[trigger] self.entries@[j].key == q by {
            let j = choose|j: int|
                0 <= j < old(self).entries@.len() && old(self).entries@[j].key == q;
            assert(self.entries@[j].key == q);
        }
    }
}

} // verus!
