//! Payment records and their status machine: a payment starts `Pending` and
//! ends `Succeeded` or `Failed`; once ended, no update changes it.

use vstd::prelude::*;
use crate::ledger::{Id32, Ledger};

verus! {

/// The state of an inbound or outbound payment.
#[derive(Clone, Copy, Debug, PartialEq, Eq, Structural)]
pub enum HTLCStatus {
    Pending,
    Succeeded,
    Failed,
}

/// What the node knows of one payment.
#[derive(Clone, Copy, Debug)]
pub struct PaymentInfo {
    pub preimage: Option<Id32>,
    pub secret: Option<Id32>,
    pub status: HTLCStatus,
    pub amt_msat: Option<u64>,
}

/// Payments keyed by payment hash (inbound) or payment id (outbound).
pub type PaymentLedger = Ledger<PaymentInfo>;

/// A payment whose status is final.
pub open spec fn is_terminal(s: HTLCStatus) -> bool {
    s != HTLCStatus::Pending
}

/// The record after asking to move it to `status` with `preimage`: applied
/// only while the payment is pending.
pub open spec fn with_status_preimage(
    p: PaymentInfo,
    status: HTLCStatus,
    preimage: Option<Id32>,
) -> PaymentInfo {
    if p.status == HTLCStatus::Pending {
        PaymentInfo { status, preimage, ..p }
    } else {
        p
    }
}

/// The record after asking to move it to `status`: applied only while the
/// payment is pending.
pub open spec fn with_status(p: PaymentInfo, status: HTLCStatus) -> PaymentInfo {
    if p.status == HTLCStatus::Pending {
        PaymentInfo { status, ..p }
    } else {
        p
    }
}

/// The store after a status update of the payment under `k` (none if absent).
pub open spec fn status_updated(
    m: Map<Id32, PaymentInfo>,
    k: Id32,
    status: HTLCStatus,
) -> Map<Id32, PaymentInfo> {
    if m.contains_key(k) {
        m.insert(k, with_status(m[k], status))
    } else {
        m
    }
}

/// The store after a status-and-preimage update of the payment under `k`.
pub open spec fn status_preimage_updated(
    m: Map<Id32, PaymentInfo>,
    k: Id32,
    status: HTLCStatus,
    preimage: Option<Id32>,
) -> Map<Id32, PaymentInfo> {
    if m.contains_key(k) {
        m.insert(k, with_status_preimage(m[k], status, preimage))
    } else {
        m
    }
}

/// The store after an upsert: a new record if `k` is absent; otherwise the
/// status, preimage and secret of a pending record are replaced and its
/// amount kept.
pub open spec fn upserted(
    m: Map<Id32, PaymentInfo>,
    k: Id32,
    status: HTLCStatus,
    preimage: Option<Id32>,
    secret: Option<Id32>,
    amt_msat: Option<u64>,
) -> Map<Id32, PaymentInfo> {
    if !m.contains_key(k) {
        m.insert(k, PaymentInfo { preimage, secret, status, amt_msat })
    } else if m[k].status == HTLCStatus::Pending {
        m.insert(k, PaymentInfo { status, preimage, secret, ..m[k] })
    } else {
        m
    }
}

/// A payment failed if it was still pending and `keep` does not hold it.
pub open spec fn failed_unless_kept(p: PaymentInfo, kept: bool) -> PaymentInfo {
    if p.status == HTLCStatus::Pending && !kept {
        PaymentInfo { status: HTLCStatus::Failed, ..p }
    } else {
        p
    }
}

/// Every pending payment whose key `keep` does not list becomes failed; the
/// rest is unchanged.
pub open spec fn reconciled(m: Map<Id32, PaymentInfo>, keep: Seq<Id32>) -> Map<
    Id32,
    PaymentInfo,
> {
    Map::new(|k: Id32| m.contains_key(k), |k: Id32| failed_unless_kept(m[k], keep.contains(k)))
}

/// Every pending payment becomes failed.
pub open spec fn all_pending_failed(m: Map<Id32, PaymentInfo>) -> Map<Id32, PaymentInfo> {
    reconciled(m, Seq::empty())
}

fn is_listed(keep: &Vec<Id32>, k: &Id32) -> (r: bool)
    ensures
        r == keep@.contains(*k),
{
    let mut i: usize = 0;
    while i < keep.len()
        invariant
            i <= keep@.len(),
            forall|j: int| 0 <= j < i ==> keep@[j] != *k,
        decreases keep@.len() - i,
    {
        if crate::ledger::same_id(&keep[i], k) {
            return true;
        }
        i += 1;
    }
    false
}

impl Ledger<PaymentInfo> {
    /// Records a payment, replacing any earlier record under the same key.
    pub fn add_payment(&mut self, k: Id32, info: PaymentInfo)
        requires
            old(self).wf(),
        ensures
            final(self).wf(),
            final(self)@ == old(self)@.insert(k, info),
    {
        self.insert(k, info);
    }

    /// Moves a pending payment to `status`; an ended or unknown one is left
    /// as it is.
    pub fn update_payment_status(&mut self, k: &Id32, status: HTLCStatus)
        requires
            old(self).wf(),
        ensures
            final(self).wf(),
            final(self)@ == status_updated(old(self)@, *k, status),
    {
        match self.get(k) {
            Some(p) => {
                if p.status == HTLCStatus::Pending {
                    self.insert(*k, PaymentInfo { status, ..p });
                } else {
                    assert(old(self)@.insert(*k, p) =~= old(self)@);
                }
            },
            None => {},
        }
    }

    /// Moves a pending payment to `status` with `preimage` and returns the
    /// record as it now stands; `None` if no payment is stored under `k`.
    pub fn update_outbound_payment(
        &mut self,
        k: &Id32,
        status: HTLCStatus,
        preimage: Option<Id32>,
    ) -> (r: Option<PaymentInfo>)
        requires
            old(self).wf(),
        ensures
            final(self).wf(),
            final(self)@ == status_preimage_updated(old(self)@, *k, status, preimage),
            r == (if old(self)@.contains_key(*k) {
                Some(with_status_preimage(old(self)@[*k], status, preimage))
            } else {
                None
            }),
    {
        match self.get(k) {
            Some(p) => {
                if p.status == HTLCStatus::Pending {
                    let q = PaymentInfo { status, preimage, ..p };
                    self.insert(*k, q);
                    Some(q)
                } else {
                    assert(old(self)@.insert(*k, p) =~= old(self)@);
                    Some(p)
                }
            },
            None => None,
        }
    }

    /// Creates the payment if it is new; otherwise moves a pending one to
    /// `status` with the given preimage and secret, keeping its amount.
    pub fn upsert_payment(
        &mut self,
        k: Id32,
        status: HTLCStatus,
        preimage: Option<Id32>,
        secret: Option<Id32>,
        amt_msat: Option<u64>,
    )
        requires
            old(self).wf(),
        ensures
            final(self).wf(),
            final(self)@ == upserted(old(self)@, k, status, preimage, secret, amt_msat),
    {
        match self.get(&k) {
            Some(p) => {
                if p.status == HTLCStatus::Pending {
                    self.insert(k, PaymentInfo { status, preimage, secret, ..p });
                } else {
                    assert(old(self)@.insert(k, p) =~= old(self)@);
                }
            },
            None => {
                self.insert(k, PaymentInfo { preimage, secret, status, amt_msat });
            },
        }
    }

    /// Fails every pending payment whose key `keep` does not list.
    pub fn fail_pending_payments_except(&mut self, keep: &Vec<Id32>)
        requires
            old(self).wf(),
        ensures
            final(self).wf(),
            final(self)@ == reconciled(old(self)@, keep@),
    {
        let ghost m0 = self@;
        let ghost ks = self.keys_seq();
        proof {
            self.lemma_keys();
        }
        let n = self.len();
        let mut i: usize = 0;
        while i < n
            invariant
                self.wf(),
                n == ks.len(),
                i <= n,
                self.keys_seq() == ks,
                forall|j: int, l: int|
                    0 <= j < l < ks.len() ==> #[trigger] ks[j] != #[trigger] ks[l],
                self@.dom() == m0.dom(),
                forall|j: int|
                    0 <= j < i ==> self@[#[trigger] ks[j]] == failed_unless_kept(
                        m0[ks[j]],
                        keep@.contains(ks[j]),
                    ),
                forall|j: int| i <= j < n ==> self@[#[trigger] ks[j]] == m0[ks[j]],
                forall|j: int| 0 <= j < n ==> m0.contains_key(#[trigger] ks[j]),
            decreases n - i,
        {
            let k = self.key_at(i);
            let p = self.value_at(i);
            if p.status == HTLCStatus::Pending && !is_listed(keep, &k) {
                self.set_value_at(i, PaymentInfo { status: HTLCStatus::Failed, ..p });
                assert(self@.dom() =~= m0.dom());
            }
            i += 1;
        }
        assert(self@ =~= reconciled(m0, keep@)) by {
            assert forall|k: Id32| #[trigger] m0.contains_key(k) implies self@[k]
                == failed_unless_kept(m0[k], keep@.contains(k)) by {
                let j = choose|j: int| 0 <= j < ks.len() && #[trigger] ks[j] == k;
            }
        }
    }

    /// Fails every pending payment.
    pub fn fail_all_pending_payments(&mut self)
        requires
            old(self).wf(),
        ensures
            final(self).wf(),
            final(self)@ == all_pending_failed(old(self)@),
    {
        let keep: Vec<Id32> = Vec::new();
        self.fail_pending_payments_except(&keep);
        assert(keep@ =~= Seq::<Id32>::empty());
    }
}

/// An ended payment keeps its status through every update this module
/// offers: a status update, a status-and-preimage update, an upsert, a
/// reconciliation and the failing of all pending payments.
pub proof fn lemma_terminal_status_is_kept(
    m: Map<Id32, PaymentInfo>,
    k: Id32,
    status: HTLCStatus,
    preimage: Option<Id32>,
    secret: Option<Id32>,
    amt_msat: Option<u64>,
    keep: Seq<Id32>,
)
    requires
        m.contains_key(k),
        is_terminal(m[k].status),
    ensures
        status_updated(m, k, status)[k] == m[k],
        status_preimage_updated(m, k, status, preimage)[k] == m[k],
        upserted(m, k, status, preimage, secret, amt_msat)[k] == m[k],
        reconciled(m, keep)[k] == m[k],
        all_pending_failed(m)[k] == m[k],
{
}

/// Reconciling twice against the same list gives what reconciling once
/// gave: each pending payment that the list lacks is failed exactly once, and
/// nothing else moves.
pub proof fn lemma_reconcile_idempotent(m: Map<Id32, PaymentInfo>, keep: Seq<Id32>)
    ensures
        reconciled(reconciled(m, keep), keep) == reconciled(m, keep),
        forall|k: Id32|
            #[trigger] m.contains_key(k) ==> (reconciled(m, keep)[k].status
                == HTLCStatus::Failed) == (m[k].status == HTLCStatus::Failed || (m[k].status
                == HTLCStatus::Pending && !keep.contains(k))),
{
    assert(reconciled(reconciled(m, keep), keep) =~= reconciled(m, keep));
}

} // verus!
