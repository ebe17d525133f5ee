//! Planning the sweep of outputs left by closed channels so that the asset
//! amounts they hold are carried over, and the cache that makes a repeated
//! sweep of the same outputs return the transaction built the first time.

use std::collections::HashMap;
use vstd::prelude::*;
use crate::ledger::{Id32, same_id};

verus! {

broadcast use vstd::std_specs::hash::group_hash_axioms;

/// A transaction output: transaction id and output index.
#[derive(Clone, Copy, Debug)]
pub struct Outpoint {
    pub txid: Id32,
    pub vout: u32,
}

/// The asset amount recorded for the transaction an output belongs to.
#[derive(Clone, Copy, Debug)]
pub struct TransferInfo {
    pub contract_id: Id32,
    pub rgb_amount: u64,
}

/// One output to sweep, with the asset it holds, if any.
#[derive(Clone, Copy, Debug)]
pub struct SpendInput {
    pub outpoint: Outpoint,
    pub transfer: Option<TransferInfo>,
}

/// One new output of the sweep: it receives `amount` of the asset, gathered
/// from `inputs`.
pub struct AssetAllocation {
    pub contract_id: Id32,
    pub vout: u32,
    pub amount: u64,
    pub inputs: Vec<Outpoint>,
}

/// The mathematical form of an [`AssetAllocation`].
pub struct AllocationSpec {
    pub contract_id: Id32,
    pub vout: nat,
    pub amount: int,
    pub inputs: Seq<Outpoint>,
}

impl View for AssetAllocation {
    type V = AllocationSpec;

    open spec fn view(&self) -> AllocationSpec {
        AllocationSpec {
            contract_id: self.contract_id,
            vout: self.vout as nat,
            amount: self.amount as int,
            inputs: self.inputs@,
        }
    }
}

/// The mathematical form of a sequence of allocations.
pub open spec fn plan_view(v: Seq<AssetAllocation>) -> Seq<AllocationSpec> {
    v.map_values(|a: AssetAllocation| a@)
}

/// An output holds a non-zero amount of some asset.
pub open spec fn carries_asset(i: SpendInput) -> bool {
    i.transfer is Some && i.transfer->0.rgb_amount > 0
}

/// Some allocation of the plan is for contract `c`.
pub open spec fn has_contract(p: Seq<AllocationSpec>, c: Id32) -> bool {
    exists|j: int| 0 <= j < p.len() && #[trigger] p[j].contract_id == c
}

/// The allocation of the plan that is for contract `c`.
pub open spec fn contract_index(p: Seq<AllocationSpec>, c: Id32) -> int {
    choose|j: int| 0 <= j < p.len() && #[trigger] p[j].contract_id == c
}

/// The plan after one more output: a plain output changes nothing; an
/// output with an asset already planned adds its amount and outpoint to that
/// allocation; an output with a new asset opens the next allocation, whose
/// output index is its position.
pub open spec fn plan_step(p: Seq<AllocationSpec>, i: SpendInput) -> Seq<AllocationSpec> {
    if !carries_asset(i) {
        p
    } else {
        let t = i.transfer->0;
        if has_contract(p, t.contract_id) {
            let j = contract_index(p, t.contract_id);
            p.update(
                j,
                AllocationSpec {
                    amount: p[j].amount + t.rgb_amount,
                    inputs: p[j].inputs.push(i.outpoint),
                    ..p[j]
                },
            )
        } else {
            p.push(
                AllocationSpec {
                    contract_id: t.contract_id,
                    vout: p.len(),
                    amount: t.rgb_amount as int,
                    inputs: seq![i.outpoint],
                },
            )
        }
    }
}

/// The allocations that sweeping `s` calls for, one per asset, in the
/// order in which the assets first occur.
pub open spec fn plan_of(s: Seq<SpendInput>) -> Seq<AllocationSpec>
    decreases s.len(),
{
    if s.len() == 0 {
        Seq::empty()
    } else {
        plan_step(plan_of(s.drop_last()), s.last())
    }
}

/// Every planned amount fits in a `u64`.
pub open spec fn plan_fits(p: Seq<AllocationSpec>) -> bool {
    forall|j: int| 0 <= j < p.len() ==> #[trigger] p[j].amount <= u64::MAX
}

/// A plan has one allocation per asset, each at the output index of its
/// position, none with an amount below zero.
pub proof fn lemma_plan_shape(s: Seq<SpendInput>)
    ensures
        plan_of(s).len() <= s.len(),
        forall|j: int, l: int|
            0 <= j < l < plan_of(s).len() ==> #[trigger] plan_of(s)[j].contract_id
                != #[trigger] plan_of(s)[l].contract_id,
        forall|j: int| 0 <= j < plan_of(s).len() ==> #[trigger] plan_of(s)[j].vout == j,
        forall|j: int| 0 <= j < plan_of(s).len() ==> #[trigger] plan_of(s)[j].amount >= 0,
    decreases s.len(),
{
    if s.len() > 0 {
        lemma_plan_shape(s.drop_last());
    }
}

/// Sweeping more outputs never drops an allocation, never moves one, and
/// never lowers an amount.
pub proof fn lemma_plan_grows(s: Seq<SpendInput>, n: int)
    requires
        0 <= n <= s.len(),
    ensures
        plan_of(s.subrange(0, n)).len() <= plan_of(s).len(),
        forall|j: int|
            0 <= j < plan_of(s.subrange(0, n)).len() ==> #[trigger] plan_of(s)[j].contract_id
                == plan_of(s.subrange(0, n))[j].contract_id && plan_of(s)[j].amount >= plan_of(
                s.subrange(0, n),
            )[j].amount,
    decreases s.len() - n,
{
    if n == s.len() {
        assert(s.subrange(0, n) =~= s);
    } else {
        let t = s.drop_last();
        assert(s.subrange(0, n) =~= t.subrange(0, n));
        lemma_plan_grows(t, n);
        lemma_plan_shape(t);
    }
}

fn find_contract(plan: &Vec<AssetAllocation>, c: &Id32) -> (r: Option<usize>)
    ensures
        match r {
            Some(j) => j < plan@.len() && plan@[j as int].contract_id == *c,
            None => forall|l: int| 0 <= l < plan@.len() ==> plan@[l].contract_id != *c,
        },
{
    let mut j: usize = 0;
    while j < plan.len()
        invariant
            j <= plan@.len(),
            forall|l: int| 0 <= l < j ==> plan@[l].contract_id != *c,
        decreases plan@.len() - j,
    {
        if same_id(&plan[j].contract_id, c) {
            return Some(j);
        }
        j += 1;
    }
    None
}

fn copy_outpoints(v: &Vec<Outpoint>) -> (r: Vec<Outpoint>)
    ensures
        r@ == v@,
{
    let mut r: Vec<Outpoint> = Vec::new();
    let mut i: usize = 0;
    while i < v.len()
        invariant
            i <= v@.len(),
            r@ =~= v@.subrange(0, i as int),
        decreases v@.len() - i,
    {
        r.push(v[i]);
        i += 1;
    }
    assert(v@.subrange(0, i as int) =~= v@);
    r
}

/// Why a sweep could not be planned.
#[derive(Clone, Copy, Debug, PartialEq, Eq, Structural)]
pub enum SpendError {
    /// The amounts of one asset add up to more than a `u64` holds.
    AmountOverflow,
    /// Posting one of the sweep's consignments failed.
    ConsignmentPostFailed,
    /// Not every consignment of the sweep was posted.
    ConsignmentsNotPosted,
}

/// Plans the asset allocations of a sweep: one new output per asset, in the
/// order in which the assets first occur, each receiving the sum of that
/// asset's amounts. Outputs with no asset or a zero amount take no part.
/// Fails when some asset's total does not fit in a `u64`.
pub fn plan_colored_spend(inputs: &Vec<SpendInput>) -> (r: Result<Vec<AssetAllocation>, SpendError>)
    requires
        inputs@.len() <= u32::MAX,
    ensures
        r is Ok <==> plan_fits(plan_of(inputs@)),
        r is Ok ==> plan_view(r->Ok_0@) == plan_of(inputs@),
        r is Err ==> r->Err_0 == SpendError::AmountOverflow,
{
    let mut plan: Vec<AssetAllocation> = Vec::new();
    let mut i: usize = 0;
    while i < inputs.len()
        invariant
            i <= inputs@.len(),
            inputs@.len() <= u32::MAX,
            plan_view(plan@) =~= plan_of(inputs@.subrange(0, i as int)),
        decreases inputs@.len() - i,
    {
        let ghost pre = inputs@.subrange(0, i as int);
        let ghost next = inputs@.subrange(0, i + 1);
        assert(next.drop_last() =~= pre);
        proof {
            lemma_plan_shape(pre);
        }
        let inp = inputs[i];
        let ghost p0 = plan_view(plan@);
        assert(next.last() == inp);
        assert(plan_of(next) == plan_step(p0, inp));
        match inp.transfer {
            Some(t) => {
                if t.rgb_amount > 0 {
                    match find_contract(&plan, &t.contract_id) {
                        Some(j) => {
                            assert(plan_view(plan@)[j as int].contract_id == t.contract_id);
                            assert(contract_index(plan_view(plan@), t.contract_id) == j);
                            let sum = match plan[j].amount.checked_add(t.rgb_amount) {
                                Some(sum) => sum,
                                None => {
                                    proof {
                                        assert(plan_of(next)[j as int].amount == p0[j as int].amount
                                            + t.rgb_amount);
                                        lemma_plan_grows(inputs@, i + 1);
                                        assert(plan_of(inputs@)[j as int].contract_id
                                            == plan_of(next)[j as int].contract_id);
                                        assert(plan_of(inputs@)[j as int].amount > u64::MAX);
                                    }
                                    return Err(SpendError::AmountOverflow);
                                },
                            };
                            let mut ins = copy_outpoints(&plan[j].inputs);
                            ins.push(inp.outpoint);
                            let a = AssetAllocation {
                                contract_id: t.contract_id,
                                vout: plan[j].vout,
                                amount: sum,
                                inputs: ins,
                            };
                            plan.set(j, a);
                            assert(plan_view(plan@) =~= plan_step(p0, inp));
                        },
                        None => {
                            assert(!has_contract(plan_view(plan@), t.contract_id));
                            let v = plan.len() as u32;
                            let ins = vec![inp.outpoint];
                            assert(ins@ =~= seq![inp.outpoint]);
                            plan.push(
                                AssetAllocation {
                                    contract_id: t.contract_id,
                                    vout: v,
                                    amount: t.rgb_amount,
                                    inputs: ins,
                                },
                            );
                            assert(plan_view(plan@) =~= plan_step(p0, inp));
                        },
                    }
                }
            },
            None => {},
        }
        i += 1;
    }
    assert(inputs@.subrange(0, i as int) =~= inputs@);
    Ok(plan)
}

fn copy_bytes(v: &Vec<u8>) -> (r: Vec<u8>)
    ensures
        r@ == v@,
{
    let mut r: Vec<u8> = Vec::new();
    let mut i: usize = 0;
    while i < v.len()
        invariant
            i <= v@.len(),
            r@ =~= v@.subrange(0, i as int),
        decreases v@.len() - i,
    {
        r.push(v[i]);
        i += 1;
    }
    assert(v@.subrange(0, i as int) =~= v@);
    r
}

/// What a sweep request calls for.
pub enum SpendPlan {
    /// These outputs were swept before: the transaction built then, to be
    /// returned as it is, with nothing signed or posted again.
    Cached(Vec<u8>),
    /// No output holds an asset: an ordinary sweep.
    Vanilla,
    /// Build a transaction with these asset allocations, post one
    /// consignment per allocation, then record the transaction.
    Colored(Vec<AssetAllocation>),
}

/// The mathematical form of a [`SpendPlan`].
pub enum SpendPlanSpec {
    Cached(Seq<u8>),
    Vanilla,
    Colored(Seq<AllocationSpec>),
}

impl View for SpendPlan {
    type V = SpendPlanSpec;

    open spec fn view(&self) -> SpendPlanSpec {
        match self {
            SpendPlan::Cached(tx) => SpendPlanSpec::Cached(tx@),
            SpendPlan::Vanilla => SpendPlanSpec::Vanilla,
            SpendPlan::Colored(p) => SpendPlanSpec::Colored(plan_view(p@)),
        }
    }
}

/// What a sweep of `inputs`, whose descriptor set hashes to `key`, calls for
/// given the transactions cached so far.
pub open spec fn spend_decision(
    cache: Map<u64, Seq<u8>>,
    key: u64,
    inputs: Seq<SpendInput>,
) -> Result<SpendPlanSpec, SpendError> {
    if cache.contains_key(key) {
        Ok(SpendPlanSpec::Cached(cache[key]))
    } else if !plan_fits(plan_of(inputs)) {
        Err(SpendError::AmountOverflow)
    } else if plan_of(inputs).len() == 0 {
        Ok(SpendPlanSpec::Vanilla)
    } else {
        Ok(SpendPlanSpec::Colored(plan_of(inputs)))
    }
}

/// The transactions of earlier colored sweeps, keyed by the hash of the
/// descriptor set each one spent.
pub struct SpendCache {
    txes: HashMap<u64, Vec<u8>>,
    order: Vec<u64>,
}

impl View for SpendCache {
    type V = Map<u64, Seq<u8>>;

    closed spec fn view(&self) -> Map<u64, Seq<u8>> {
        self.txes@.map_values(|v: Vec<u8>| v@)
    }
}

impl SpendCache {
    /// The keys in the order they were first recorded.
    pub closed spec fn keys_seq(&self) -> Seq<u64> {
        self.order@
    }

    /// The order lists each cached key once.
    pub closed spec fn wf(&self) -> bool {
        &&& self.order@.no_duplicates()
        &&& forall|k: u64| #[trigger] self.txes@.contains_key(k) <==> self.order@.contains(k)
    }

    /// What the order says of the view: it lists exactly the cached keys,
    /// each once.
    pub proof fn lemma_keys(&self)
        requires
            self.wf(),
        ensures
            self.keys_seq().no_duplicates(),
            forall|k: u64| #[trigger] self@.contains_key(k) <==> self.keys_seq().contains(k),
    {
    }

    /// An empty cache.
    pub fn new() -> (r: Self)
        ensures
            r.wf(),
            r@ == Map::<u64, Seq<u8>>::empty(),
    {
        let r = SpendCache { txes: HashMap::new(), order: Vec::new() };
        assert(r@ =~= Map::<u64, Seq<u8>>::empty());
        r
    }

    /// The number of cached transactions.
    pub fn len(&self) -> (r: usize)
        ensures
            r == self.keys_seq().len(),
    {
        self.order.len()
    }

    /// The key at position `i` of the order.
    pub fn key_at(&self, i: usize) -> (r: u64)
        requires
            i < self.keys_seq().len(),
        ensures
            r == self.keys_seq()[i as int],
    {
        self.order[i]
    }

    /// The transaction cached for `key`, if any.
    pub fn cached(&self, key: u64) -> (r: Option<Vec<u8>>)
        ensures
            r is Some <==> self@.contains_key(key),
            r is Some ==> r->0@ == self@[key],
    {
        match self.txes.get(&key) {
            Some(tx) => Some(copy_bytes(tx)),
            None => None,
        }
    }

    /// Records the transaction built for `key`.
    pub fn record(&mut self, key: u64, tx: Vec<u8>)
        requires
            old(self).wf(),
        ensures
            final(self).wf(),
            final(self)@ == old(self)@.insert(key, tx@),
    {
        let ghost v = tx@;
        let known = self.txes.get(&key).is_some();
        self.txes.insert(key, tx);
        if !known {
            self.order.push(key);
            assert forall|k: u64| #[trigger] self.txes@.contains_key(k) <==> self.order@.contains(
                k,
            ) by {
                if k == key {
                    assert(self.order@[self.order@.len() - 1] == key);
                } else if self.order@.contains(k) {
                    let j = choose|j: int| 0 <= j < self.order@.len() && self.order@[j] == k;
                    assert(old(self).order@[j] == k);
                } else if old(self).order@.contains(k) {
                    let j = choose|j: int| 0 <= j < old(self).order@.len() && old(self).order@[j] == k;
                    assert(self.order@[j] == k);
                }
            }
        }
        assert(self@ =~= old(self)@.insert(key, v));
    }

    /// Decides what a sweep of `inputs`, whose descriptor set hashes to
    /// `key`, calls for.
    pub fn begin_spend(&self, key: u64, inputs: &Vec<SpendInput>) -> (r: Result<
        SpendPlan,
        SpendError,
    >)
        requires
            inputs@.len() <= u32::MAX,
        ensures
            match r {
                Ok(p) => spend_decision(self@, key, inputs@) == Ok::<SpendPlanSpec, SpendError>(p@),
                Err(e) => spend_decision(self@, key, inputs@) == Err::<SpendPlanSpec, SpendError>(
                    e,
                ),
            },
    {
        if let Some(tx) = self.cached(key) {
            return Ok(SpendPlan::Cached(tx));
        }
        match plan_colored_spend(inputs) {
            Ok(p) => {
                if p.len() == 0 {
                    Ok(SpendPlan::Vanilla)
                } else {
                    Ok(SpendPlan::Colored(p))
                }
            },
            Err(e) => Err(e),
        }
    }
}

/// What a colored sweep does next, once its transaction is signed.
#[derive(Clone, Copy, Debug, PartialEq, Eq, Structural)]
pub enum SweepStep {
    /// Post the consignment of the allocation at this position.
    PostConsignment(usize),
    /// A post failed: give up, caching nothing.
    Abort,
    /// Every consignment was posted: record the transaction and return it.
    Record,
}

/// A sweep with `allocations` consignments, whose posts so far came out as
/// `outcomes`, in order, each `true` for a post that succeeded.
pub open spec fn sweep_step_of(allocations: nat, outcomes: Seq<bool>) -> SweepStep {
    if exists|i: int| 0 <= i < outcomes.len() && !#[trigger] outcomes[i] {
        SweepStep::Abort
    } else if outcomes.len() < allocations {
        SweepStep::PostConsignment(outcomes.len() as usize)
    } else {
        SweepStep::Record
    }
}

/// Every one of `allocations` consignments was posted and each post succeeded.
pub open spec fn all_posted(allocations: nat, outcomes: Seq<bool>) -> bool {
    outcomes.len() == allocations && forall|i: int| 0 <= i < outcomes.len() ==> #[trigger] outcomes[i]
}

fn first_failure(outcomes: &Vec<bool>) -> (r: bool)
    ensures
        r == exists|i: int| 0 <= i < outcomes@.len() && !#[trigger] outcomes@[i],
{
    let mut i: usize = 0;
    while i < outcomes.len()
        invariant
            i <= outcomes@.len(),
            forall|j: int| 0 <= j < i ==> #[trigger] outcomes@[j],
        decreases outcomes@.len() - i,
    {
        if !outcomes[i] {
            return true;
        }
        i += 1;
    }
    false
}

/// Decides the next move of a colored sweep with `allocations` consignments
/// whose posts so far came out as `outcomes`.
pub fn next_sweep_step(allocations: usize, outcomes: &Vec<bool>) -> (r: SweepStep)
    ensures
        r == sweep_step_of(allocations as nat, outcomes@),
{
    if first_failure(outcomes) {
        SweepStep::Abort
    } else if outcomes.len() < allocations {
        SweepStep::PostConsignment(outcomes.len())
    } else {
        SweepStep::Record
    }
}

impl SpendCache {
    /// Ends a colored sweep for `key` with signed transaction `tx`: records
    /// and returns it only if each of the `allocations` consignments was
    /// posted and every post succeeded; otherwise caches nothing.
    pub fn finish_colored_spend(
        &mut self,
        key: u64,
        tx: Vec<u8>,
        allocations: usize,
        outcomes: &Vec<bool>,
    ) -> (r: Result<Vec<u8>, SpendError>)
        requires
            old(self).wf(),
        ensures
            final(self).wf(),
            r is Ok <==> all_posted(allocations as nat, outcomes@),
            r is Ok ==> r->Ok_0@ == tx@ && final(self)@ == old(self)@.insert(key, tx@),
            r is Err ==> final(self)@ == old(self)@,
            r is Err ==> (r->Err_0 == SpendError::ConsignmentPostFailed <==> exists|i: int|
                0 <= i < outcomes@.len() && !#[trigger] outcomes@[i]),
            r is Err ==> (r->Err_0 == SpendError::ConsignmentPostFailed || r->Err_0
                == SpendError::ConsignmentsNotPosted),
    {
        if first_failure(outcomes) {
            return Err(SpendError::ConsignmentPostFailed);
        }
        if outcomes.len() != allocations {
            return Err(SpendError::ConsignmentsNotPosted);
        }
        let out = copy_bytes(&tx);
        self.record(key, tx);
        Ok(out)
    }
}

/// Once a colored sweep of a descriptor set has been recorded, sweeping the
/// same set again returns that very transaction, byte for byte, and calls
/// for no new transaction and no consignment post, whatever the outputs'
/// asset records say by then.
pub proof fn lemma_spend_idempotent(
    cache: Map<u64, Seq<u8>>,
    key: u64,
    tx: Seq<u8>,
    inputs: Seq<SpendInput>,
)
    ensures
        spend_decision(cache.insert(key, tx), key, inputs) == Ok::<SpendPlanSpec, SpendError>(
            SpendPlanSpec::Cached(tx),
        ),
{
}

} // verus!
