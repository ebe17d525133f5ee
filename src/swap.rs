//! Swap records, their status machine, and the validator that decides
//! whether an intercepted HTLC carries exactly the terms of a whitelisted
//! swap.

use vstd::prelude::*;
use crate::ledger::{Id32, Ledger, same_opt_id};

verus! {

/// The state of a swap: `Waiting` until its HTLC is seen, `Pending` while
/// it is forwarded, then one of the three ends.
#[derive(Clone, Copy, Debug, PartialEq, Eq, Structural)]
pub enum SwapStatus {
    Waiting,
    Pending,
    Succeeded,
    Failed,
    Expired,
}

/// The agreed terms of a swap. A missing asset stands for bitcoin: with no
/// `from_asset` the taker pays bitcoin (`qty_from` in millisatoshis) for an
/// asset; with no `to_asset` the taker receives bitcoin (`qty_to` in
/// millisatoshis) for an asset.
#[derive(Clone, Copy, Debug)]
pub struct SwapInfo {
    pub from_asset: Option<Id32>,
    pub to_asset: Option<Id32>,
    pub qty_from: u64,
    pub qty_to: u64,
}

/// A swap record with its lifecycle timestamps, in seconds.
#[derive(Clone, Copy, Debug)]
pub struct SwapData {
    pub swap_info: SwapInfo,
    pub status: SwapStatus,
    pub initiated_at: Option<u64>,
    pub completed_at: Option<u64>,
}

/// Swaps keyed by payment hash.
pub type SwapMap = Ledger<SwapData>;

impl SwapInfo {
    /// The taker pays bitcoin.
    pub fn is_from_btc(&self) -> (r: bool)
        ensures
            r == (self.from_asset is None),
    {
        self.from_asset.is_none()
    }

    /// The taker receives bitcoin.
    pub fn is_to_btc(&self) -> (r: bool)
        ensures
            r == (self.to_asset is None),
    {
        self.to_asset.is_none()
    }
}

/// Why a swap status update was refused.
#[derive(Clone, Copy, Debug, PartialEq, Eq, Structural)]
pub enum SwapUpdateError {
    /// No swap is stored under the payment hash.
    UnknownSwap,
    /// A swap may never move into `Waiting`.
    InvariantViolated,
    /// The swap's current status does not allow the move.
    NotAllowed,
}

/// An ended swap.
pub open spec fn swap_is_terminal(s: SwapStatus) -> bool {
    s == SwapStatus::Succeeded || s == SwapStatus::Failed || s == SwapStatus::Expired
}

/// The moves a swap may make: out of `Waiting` into any other status, and
/// out of `Pending` into an end.
pub open spec fn swap_move_allowed(from: SwapStatus, to: SwapStatus) -> bool {
    (from == SwapStatus::Waiting && to != SwapStatus::Waiting) || (from == SwapStatus::Pending
        && swap_is_terminal(to))
}

/// The record after a move at time `now`: entering `Pending` stamps
/// `initiated_at`, entering an end stamps `completed_at`.
pub open spec fn swap_moved(d: SwapData, to: SwapStatus, now: u64) -> SwapData {
    if to == SwapStatus::Pending {
        SwapData { status: to, initiated_at: Some(now), ..d }
    } else {
        SwapData { status: to, completed_at: Some(now), ..d }
    }
}

/// The outcome of asking the swap under `k` to move to `to` at time `now`.
pub open spec fn swap_update_result(m: Map<Id32, SwapData>, k: Id32, to: SwapStatus) -> Result<
    (),
    SwapUpdateError,
> {
    if !m.contains_key(k) {
        Err(SwapUpdateError::UnknownSwap)
    } else if to == SwapStatus::Waiting {
        Err(SwapUpdateError::InvariantViolated)
    } else if !swap_move_allowed(m[k].status, to) {
        Err(SwapUpdateError::NotAllowed)
    } else {
        Ok(())
    }
}

/// The store after that request: changed only when the move is allowed.
pub open spec fn swap_updated(m: Map<Id32, SwapData>, k: Id32, to: SwapStatus, now: u64) -> Map<
    Id32,
    SwapData,
> {
    if swap_update_result(m, k, to) is Ok {
        m.insert(k, swap_moved(m[k], to, now))
    } else {
        m
    }
}

fn move_allowed(from: SwapStatus, to: SwapStatus) -> (r: bool)
    ensures
        r == swap_move_allowed(from, to),
{
    match from {
        SwapStatus::Waiting => to != SwapStatus::Waiting,
        SwapStatus::Pending => match to {
            SwapStatus::Succeeded | SwapStatus::Failed | SwapStatus::Expired => true,
            _ => false,
        },
        _ => false,
    }
}

impl Ledger<SwapData> {
    /// Moves the swap under `k` to `status`, stamping the time `now`.
    pub fn update_swap_status_at(&mut self, k: &Id32, status: SwapStatus, now: u64) -> (r: Result<
        (),
        SwapUpdateError,
    >)
        requires
            old(self).wf(),
        ensures
            final(self).wf(),
            r == swap_update_result(old(self)@, *k, status),
            final(self)@ == swap_updated(old(self)@, *k, status, now),
    {
        let d = match self.get(k) {
            Some(d) => d,
            None => return Err(SwapUpdateError::UnknownSwap),
        };
        if status == SwapStatus::Waiting {
            return Err(SwapUpdateError::InvariantViolated);
        }
        if !move_allowed(d.status, status) {
            return Err(SwapUpdateError::NotAllowed);
        }
        let moved = if status == SwapStatus::Pending {
            SwapData { status, initiated_at: Some(now), ..d }
        } else {
            SwapData { status, completed_at: Some(now), ..d }
        };
        self.insert(*k, moved);
        Ok(())
    }

    /// Moves the swap under `k` to `status`, stamping the current time.
    pub fn update_swap_status(&mut self, k: &Id32, status: SwapStatus) -> (r: Result<
        (),
        SwapUpdateError,
    >)
        requires
            old(self).wf(),
        ensures
            final(self).wf(),
            r == swap_update_result(old(self)@, *k, status),
            exists|now: u64| final(self)@ == swap_updated(old(self)@, *k, status, now),
    {
        let now = crate::utils::get_current_timestamp();
        self.update_swap_status_at(k, status, now)
    }
}

/// The amounts and assets that an intercepted HTLC carries, as the node sees
/// them: millisatoshis in and out, asset amounts in and out, and the asset of
/// the inbound and outbound channels.
#[derive(Clone, Copy, Debug)]
pub struct InterceptedHtlc {
    pub inbound_amount_msat: u64,
    pub expected_outbound_amount_msat: u64,
    pub inbound_rgb_amount: Option<u64>,
    pub expected_outbound_rgb_amount: Option<u64>,
    pub inbound_contract_id: Option<Id32>,
    pub outbound_contract_id: Option<Id32>,
}

/// The terms under which an intercepted HTLC honours a whitelisted swap,
/// each an exact equality.
///
/// Bitcoin for an asset: the outbound millisatoshis exceed the inbound ones
/// by exactly `qty_from`, and the inbound leg carries `qty_to` of `to_asset`.
/// An asset for bitcoin: the inbound millisatoshis exceed the outbound ones
/// by `qty_to` (a shortfall counts as zero), and the outbound leg carries
/// `qty_from` of `from_asset`. Asset for asset: no millisatoshis change
/// hands, the outbound leg carries `qty_from` of `from_asset` and the inbound
/// leg `qty_to` of `to_asset`.
pub open spec fn swap_matches(info: SwapInfo, h: InterceptedHtlc) -> bool {
    if info.from_asset is None {
        &&& h.expected_outbound_amount_msat >= h.inbound_amount_msat
        &&& h.expected_outbound_amount_msat - h.inbound_amount_msat == info.qty_from
        &&& h.inbound_rgb_amount == Some(info.qty_to)
        &&& h.inbound_contract_id == info.to_asset
    } else if info.to_asset is None {
        &&& (if h.inbound_amount_msat >= h.expected_outbound_amount_msat {
            h.inbound_amount_msat - h.expected_outbound_amount_msat
        } else {
            0
        }) == info.qty_to
        &&& h.expected_outbound_rgb_amount == Some(info.qty_from)
        &&& h.outbound_contract_id == info.from_asset
    } else {
        &&& h.inbound_amount_msat == h.expected_outbound_amount_msat
        &&& h.expected_outbound_rgb_amount == Some(info.qty_from)
        &&& h.outbound_contract_id == info.from_asset
        &&& h.inbound_rgb_amount == Some(info.qty_to)
        &&& h.inbound_contract_id == info.to_asset
    }
}

fn is_some_amount(a: Option<u64>, q: u64) -> (r: bool)
    ensures
        r == (a == Some(q)),
{
    match a {
        Some(x) => x == q,
        None => false,
    }
}

/// Decides whether an intercepted HTLC matches the swap's terms exactly.
pub fn validate_swap(info: &SwapInfo, h: &InterceptedHtlc) -> (ok: bool)
    ensures
        ok == swap_matches(*info, *h),
{
    if info.is_from_btc() {
        let net = h.expected_outbound_amount_msat.checked_sub(h.inbound_amount_msat);
        let net_ok = match net {
            Some(d) => d == info.qty_from,
            None => false,
        };
        net_ok && is_some_amount(h.inbound_rgb_amount, info.qty_to) && same_opt_id(
            &h.inbound_contract_id,
            &info.to_asset,
        )
    } else if info.is_to_btc() {
        let net = h.inbound_amount_msat.saturating_sub(h.expected_outbound_amount_msat);
        net == info.qty_to && is_some_amount(h.expected_outbound_rgb_amount, info.qty_from)
            && same_opt_id(&h.outbound_contract_id, &info.from_asset)
    } else {
        let net = h.inbound_amount_msat.checked_sub(h.expected_outbound_amount_msat);
        let net_ok = match net {
            Some(d) => d == 0,
            None => false,
        };
        net_ok && is_some_amount(h.expected_outbound_rgb_amount, info.qty_from) && same_opt_id(
            &h.outbound_contract_id,
            &info.from_asset,
        ) && is_some_amount(h.inbound_rgb_amount, info.qty_to) && same_opt_id(
            &h.inbound_contract_id,
            &info.to_asset,
        )
    }
}

/// For a swap that pays bitcoin for an asset, the validator accepts exactly
/// when the outbound millisatoshis exceed the inbound ones by `qty_from` and
/// the inbound leg carries `qty_to` of the swap's target asset; a match on
/// only some of these is rejected.
pub proof fn lemma_from_btc_acceptance(info: SwapInfo, h: InterceptedHtlc)
    requires
        info.from_asset is None,
    ensures
        swap_matches(info, h) <==> (h.expected_outbound_amount_msat as int
            - h.inbound_amount_msat as int == info.qty_from as int && h.inbound_rgb_amount
            == Some(info.qty_to) && h.inbound_contract_id == info.to_asset),
{
}

} // verus!
