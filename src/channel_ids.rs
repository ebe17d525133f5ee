//! The map from the temporary identifier a channel gets when it is opened to
//! the final identifier it gets once its funding is broadcast.

use vstd::prelude::*;
use crate::ledger::{Id32, Ledger, same_id};

verus! {

/// Final channel ids keyed by the temporary id they replaced.
pub type ChannelIdsMap = Ledger<Id32>;

/// The map without every temporary id that resolves to `channel_id`.
pub open spec fn without_channel(m: Map<Id32, Id32>, channel_id: Id32) -> Map<Id32, Id32> {
    Map::new(|k: Id32| m.contains_key(k) && m[k] != channel_id, |k: Id32| m[k])
}

impl Ledger<Id32> {
    /// Records that `former_temporary_channel_id` now resolves to `channel_id`.
    pub fn add_channel_id(&mut self, former_temporary_channel_id: Id32, channel_id: Id32)
        requires
            old(self).wf(),
        ensures
            final(self).wf(),
            final(self)@ == old(self)@.insert(former_temporary_channel_id, channel_id),
    {
        self.insert(former_temporary_channel_id, channel_id);
    }

    /// Forgets every temporary id that resolves to `channel_id`.
    pub fn delete_channel_id(&mut self, channel_id: &Id32)
        requires
            old(self).wf(),
        ensures
            final(self).wf(),
            final(self)@ == without_channel(old(self)@, *channel_id),
    {
        let ghost m0 = self@;
        let ghost ks = self.keys_seq();
        proof {
            self.lemma_keys();
        }
        let mut doomed: Vec<Id32> = Vec::new();
        let n = self.len();
        let mut i: usize = 0;
        while i < n
            invariant
                self.wf(),
                self@ == m0,
                self.keys_seq() == ks,
                n == ks.len(),
                i <= n,
                forall|j: int| 0 <= j < n ==> m0.contains_key(#[trigger] ks[j]),
                forall|k: Id32|
                    #[trigger] doomed@.contains(k) <==> exists|j: int|
                        0 <= j < i && #[trigger] ks[j] == k && m0[k] == *channel_id,
            decreases n - i,
        {
            let k = self.key_at(i);
            let v = self.value_at(i);
            let ghost before = doomed@;
            let hit = same_id(&v, channel_id);
            if hit {
                doomed.push(k);
            }
            proof {
                assert forall|q: Id32| #[trigger] doomed@.contains(q) <==> (before.contains(q) || (
                hit && q == k)) by {
                    if doomed@.contains(q) {
                        let j = choose|j: int| 0 <= j < doomed@.len() && #[trigger] doomed@[j] == q;
                        if j < before.len() {
                            assert(before[j] == q);
                        }
                    }
                    if before.contains(q) {
                        let j = choose|j: int| 0 <= j < before.len() && #[trigger] before[j] == q;
                        assert(doomed@[j] == q);
                    }
                    if hit && q == k {
                        assert(doomed@[doomed@.len() - 1] == q);
                    }
                }
                assert forall|q: Id32| #[trigger] doomed@.contains(q) <==> exists|j: int|
                    0 <= j < i + 1 && #[trigger] ks[j] == q && m0[q] == *channel_id by {
                    if exists|j: int|
                        0 <= j < i + 1 && #[trigger] ks[j] == q && m0[q] == *channel_id {
                        let j = choose|j: int|
                            0 <= j < i + 1 && #[trigger] ks[j] == q && m0[q] == *channel_id;
                        if j == i {
                            assert(m0[ks[j]] == v);
                        }
                    }
                }
            }
            i += 1;
        }
        let mut d: usize = 0;
        while d < doomed.len()
            invariant
                self.wf(),
                d <= doomed@.len(),
                forall|k: Id32|
                    #[trigger] doomed@.contains(k) <==> (m0.contains_key(k) && m0[k]
                        == *channel_id),
                self@ == Map::new(
                    |k: Id32| m0.contains_key(k) && !doomed@.subrange(0, d as int).contains(k),
                    |k: Id32| m0[k],
                ),
            decreases doomed@.len() - d,
        {
            let ghost before = self@;
            self.remove(&doomed[d]);
            d += 1;
            proof {
                let prev = doomed@.subrange(0, d - 1);
                let cur = doomed@.subrange(0, d as int);
                assert(cur =~= prev.push(doomed@[d - 1]));
                assert forall|k: Id32| #[trigger] cur.contains(k) <==> (prev.contains(k) || k
                    == doomed@[d - 1]) by {
                    if cur.contains(k) {
                        let j = choose|j: int| 0 <= j < cur.len() && #[trigger] cur[j] == k;
                        if j < d - 1 {
                            assert(prev[j] == k);
                        }
                    }
                    if prev.contains(k) {
                        let j = choose|j: int| 0 <= j < prev.len() && #[trigger] prev[j] == k;
                        assert(cur[j] == k);
                    }
                    if k == doomed@[d - 1] {
                        assert(cur[d - 1] == k);
                    }
                }
                assert(self@ =~= Map::new(
                    |k: Id32| m0.contains_key(k) && !cur.contains(k),
                    |k: Id32| m0[k],
                ));
            }
        }
        proof {
            assert(doomed@.subrange(0, d as int) =~= doomed@);
            assert forall|k: Id32|
                m0.contains_key(k) && !doomed@.contains(k) <==> (m0.contains_key(k) && m0[k]
                    != *channel_id) by {
                if m0.contains_key(k) && m0[k] == *channel_id {
                    let j = choose|j: int| 0 <= j < ks.len() && #[trigger] ks[j] == k;
                    assert(doomed@.contains(k));
                }
            }
            assert(self@ =~= without_channel(m0, *channel_id));
        }
    }
}

/// Once a channel has been recorded as pending under a temporary id and
/// then closed under its final id, the temporary id no longer resolves.
pub proof fn lemma_closed_channel_forgotten(m: Map<Id32, Id32>, temporary: Id32, channel_id: Id32)
    ensures
        !without_channel(m.insert(temporary, channel_id), channel_id).contains_key(temporary),
        forall|k: Id32|
            #[trigger] without_channel(m, channel_id).contains_key(k) ==> without_channel(
                m,
                channel_id,
            )[k] != channel_id,
{
}

} // verus!
