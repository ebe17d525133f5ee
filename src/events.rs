//! The event dispatcher: how the node's ledgers change and which commands it
//! issues, for each event of the Lightning engine, one event at a time.

use vstd::prelude::*;
use crate::channel_ids::{ChannelIdsMap, without_channel};
use crate::ledger::{Id32, Ledger};
use crate::payment::{
    HTLCStatus,
    PaymentInfo,
    PaymentLedger,
    all_pending_failed,
    reconciled,
    with_status_preimage,
    is_terminal,
    lemma_terminal_status_is_kept,
    status_preimage_updated,
    status_updated,
    upserted,
};
use crate::swap::{
    InterceptedHtlc,
    SwapData,
    SwapMap,
    SwapStatus,
    SwapUpdateError,
    swap_is_terminal,
    swap_matches,
    swap_update_result,
    swap_updated,
    validate_swap,
};

verus! {

/// A node's public key, in its 33-byte compressed form.
pub type NodeId = [u8; 33];

/// The events of the Lightning engine that call for a decision, with what
/// the node has looked up about each (whether a channel is colored, whether
/// a funding transaction or consignment was saved for it, the assets of the
/// channels an intercepted HTLC crosses).
#[derive(Clone, Copy, Debug)]
pub enum Event {
    FundingGenerationReady {
        temporary_channel_id: Id32,
        counterparty_node_id: NodeId,
        channel_value_satoshis: u64,
        is_colored: bool,
    },
    PaymentClaimable { payment_hash: Id32, preimage: Option<Id32> },
    PaymentClaimed {
        payment_hash: Id32,
        preimage: Option<Id32>,
        secret: Option<Id32>,
        amount_msat: u64,
    },
    PaymentSent { payment_id: Option<Id32>, payment_hash: Id32, preimage: Id32 },
    PaymentFailed { payment_id: Id32, payment_hash: Id32 },
    InvoiceRequestFailed { payment_id: Id32 },
    PaymentForwarded {
        prev_channel_id: Id32,
        next_channel_id: Id32,
        outbound_amount_forwarded_rgb: Option<u64>,
        inbound_amount_forwarded_rgb: Option<u64>,
        payment_hash: Id32,
    },
    OpenChannelRequest {
        temporary_channel_id: Id32,
        counterparty_node_id: NodeId,
        user_channel_id: u128,
    },
    PendingHTLCsForwardable { min_delay_millis: u64 },
    ChannelPending {
        channel_id: Id32,
        former_temporary_channel_id: Option<Id32>,
        funding_psbt_saved: bool,
        is_colored: bool,
        consignment_received: bool,
    },
    ChannelReady { channel_id: Id32 },
    ChannelClosed { channel_id: Id32 },
    DiscardFunding { channel_id: Id32 },
    HTLCIntercepted {
        is_swap: bool,
        payment_hash: Id32,
        intercept_id: Id32,
        htlc: InterceptedHtlc,
        requested_next_hop_scid: u64,
        next_node_id: NodeId,
    },
}

/// What the node asks of the Lightning engine and the asset wallet.
#[derive(Clone, Copy, Debug)]
pub enum Command {
    /// Build, sign and save the funding transaction, colored or plain, and
    /// hand it to the engine.
    BuildFundingTransaction {
        temporary_channel_id: Id32,
        counterparty_node_id: NodeId,
        channel_value_satoshis: u64,
        colored: bool,
    },
    ClaimFunds { preimage: Id32 },
    /// Move the asset amount of a settled payment in or out of its channel.
    UpdateRgbPaymentAmount { payment_hash: Id32, receiver: bool },
    UpdateRgbChannelAmount { channel_id: Id32, offered: u64, received: u64 },
    AcceptInboundChannel {
        temporary_channel_id: Id32,
        counterparty_node_id: NodeId,
        user_channel_id: u128,
    },
    /// Process pending forwards after a delay drawn from
    /// `min_delay_millis..max_delay_millis`.
    ProcessPendingForwards { min_delay_millis: u64, max_delay_millis: u64 },
    /// Finalise and broadcast the saved funding transaction.
    CompleteFunding { channel_id: Id32, colored: bool },
    /// Register the asset of the consignment received for this channel.
    RegisterReceivedAsset { channel_id: Id32 },
    RefreshAssets,
    FailInterceptedHtlc { intercept_id: Id32 },
    ForwardInterceptedHtlc {
        intercept_id: Id32,
        next_hop_scid: u64,
        next_node_id: NodeId,
        amount_msat: u64,
        rgb_amount: Option<u64>,
    },
}

/// The node's ledgers and its funding lock.
pub struct NodeState {
    pub inbound_payments: PaymentLedger,
    pub outbound_payments: PaymentLedger,
    pub maker_swaps: SwapMap,
    pub taker_swaps: SwapMap,
    pub channel_ids: ChannelIdsMap,
    /// Held while a colored funding transaction is being negotiated.
    pub rgb_send_lock: bool,
}

/// The mathematical form of a [`NodeState`].
pub struct NodeView {
    pub inbound: Map<Id32, PaymentInfo>,
    pub outbound: Map<Id32, PaymentInfo>,
    pub maker: Map<Id32, SwapData>,
    pub taker: Map<Id32, SwapData>,
    pub channel_ids: Map<Id32, Id32>,
    pub send_lock: bool,
}

impl View for NodeState {
    type V = NodeView;

    open spec fn view(&self) -> NodeView {
        NodeView {
            inbound: self.inbound_payments@,
            outbound: self.outbound_payments@,
            maker: self.maker_swaps@,
            taker: self.taker_swaps@,
            channel_ids: self.channel_ids@,
            send_lock: self.rgb_send_lock,
        }
    }
}

/// The state with its inbound payments replaced.
pub open spec fn with_inbound(v: NodeView, m: Map<Id32, PaymentInfo>) -> NodeView {
    NodeView { inbound: m, ..v }
}

/// The state with its outbound payments replaced.
pub open spec fn with_outbound(v: NodeView, m: Map<Id32, PaymentInfo>) -> NodeView {
    NodeView { outbound: m, ..v }
}

/// The state with its maker swaps replaced.
pub open spec fn with_maker(v: NodeView, m: Map<Id32, SwapData>) -> NodeView {
    NodeView { maker: m, ..v }
}

/// The state with its taker swaps replaced.
pub open spec fn with_taker(v: NodeView, m: Map<Id32, SwapData>) -> NodeView {
    NodeView { taker: m, ..v }
}

/// The state after `e` arrives at time `now`.
pub open spec fn next_view(v: NodeView, e: Event, now: u64) -> NodeView {
    match e {
        Event::PaymentClaimed { payment_hash, preimage, secret, amount_msat } => {
            if v.maker.contains_key(payment_hash) {
                NodeView {
                    maker: swap_updated(v.maker, payment_hash, SwapStatus::Succeeded, now),
                    ..v
                }
            } else {
                NodeView {
                    inbound: upserted(
                        v.inbound,
                        payment_hash,
                        HTLCStatus::Succeeded,
                        preimage,
                        secret,
                        Some(amount_msat),
                    ),
                    ..v
                }
            }
        },
        Event::PaymentSent { payment_id, payment_hash, preimage } => {
            if v.maker.contains_key(payment_hash) {
                NodeView {
                    maker: swap_updated(v.maker, payment_hash, SwapStatus::Succeeded, now),
                    ..v
                }
            } else if payment_id is Some {
                NodeView {
                    outbound: status_preimage_updated(
                        v.outbound,
                        payment_id->0,
                        HTLCStatus::Succeeded,
                        Some(preimage),
                    ),
                    ..v
                }
            } else {
                v
            }
        },
        Event::PaymentFailed { payment_id, payment_hash } => {
            if v.maker.contains_key(payment_hash) {
                NodeView {
                    maker: swap_updated(v.maker, payment_hash, SwapStatus::Failed, now),
                    ..v
                }
            } else {
                NodeView {
                    outbound: status_updated(v.outbound, payment_id, HTLCStatus::Failed),
                    ..v
                }
            }
        },
        Event::InvoiceRequestFailed { payment_id } => NodeView {
            outbound: status_updated(v.outbound, payment_id, HTLCStatus::Failed),
            ..v
        },
        Event::PaymentForwarded { payment_hash, .. } => {
            if v.taker.contains_key(payment_hash) {
                NodeView {
                    taker: swap_updated(v.taker, payment_hash, SwapStatus::Succeeded, now),
                    ..v
                }
            } else {
                v
            }
        },
        Event::ChannelPending {
            channel_id,
            former_temporary_channel_id,
            funding_psbt_saved,
            ..
        } => {
            let ids = match former_temporary_channel_id {
                Some(t) => v.channel_ids.insert(t, channel_id),
                None => v.channel_ids,
            };
            NodeView {
                channel_ids: ids,
                send_lock: if funding_psbt_saved {
                    false
                } else {
                    v.send_lock
                },
                ..v
            }
        },
        Event::ChannelClosed { channel_id } => NodeView {
            inbound: all_pending_failed(v.inbound),
            outbound: all_pending_failed(v.outbound),
            channel_ids: without_channel(v.channel_ids, channel_id),
            ..v
        },
        Event::DiscardFunding { channel_id } => NodeView {
            channel_ids: without_channel(v.channel_ids, channel_id),
            send_lock: false,
            ..v
        },
        Event::HTLCIntercepted { is_swap, payment_hash, htlc, .. } => {
            if !is_swap || !v.taker.contains_key(payment_hash) {
                v
            } else if !swap_matches(v.taker[payment_hash].swap_info, htlc) {
                NodeView {
                    taker: swap_updated(v.taker, payment_hash, SwapStatus::Failed, now),
                    ..v
                }
            } else {
                NodeView {
                    taker: swap_updated(v.taker, payment_hash, SwapStatus::Pending, now),
                    ..v
                }
            }
        },
        _ => v,
    }
}

/// Five times `d`, or the largest `u64` if that does not fit.
pub open spec fn five_times_saturating(d: u64) -> u64 {
    if d * 5 <= u64::MAX {
        (d * 5) as u64
    } else {
        u64::MAX
    }
}

/// The commands the node issues when `e` arrives in state `v`.
pub open spec fn commands_for(v: NodeView, e: Event) -> Seq<Command> {
    match e {
        Event::FundingGenerationReady {
            temporary_channel_id,
            counterparty_node_id,
            channel_value_satoshis,
            is_colored,
        } => seq![
            Command::BuildFundingTransaction {
                temporary_channel_id,
                counterparty_node_id,
                channel_value_satoshis,
                colored: is_colored,
            },
        ],
        Event::PaymentClaimable { preimage, .. } => match preimage {
            Some(p) => seq![Command::ClaimFunds { preimage: p }],
            None => Seq::empty(),
        },
        Event::PaymentClaimed { payment_hash, .. } => seq![
            Command::UpdateRgbPaymentAmount { payment_hash, receiver: true },
        ],
        Event::PaymentSent { payment_hash, .. } => seq![
            Command::UpdateRgbPaymentAmount { payment_hash, receiver: false },
        ],
        Event::PaymentForwarded {
            prev_channel_id,
            next_channel_id,
            outbound_amount_forwarded_rgb,
            inbound_amount_forwarded_rgb,
            ..
        } => {
            let out = match outbound_amount_forwarded_rgb {
                Some(a) => seq![
                    Command::UpdateRgbChannelAmount {
                        channel_id: next_channel_id,
                        offered: a,
                        received: 0,
                    },
                ],
                None => Seq::empty(),
            };
            let inb = match inbound_amount_forwarded_rgb {
                Some(a) => seq![
                    Command::UpdateRgbChannelAmount {
                        channel_id: prev_channel_id,
                        offered: 0,
                        received: a,
                    },
                ],
                None => Seq::empty(),
            };
            out + inb
        },
        Event::OpenChannelRequest { temporary_channel_id, counterparty_node_id, user_channel_id } =>
            seq![
            Command::AcceptInboundChannel {
                temporary_channel_id,
                counterparty_node_id,
                user_channel_id,
            },
        ],
        Event::PendingHTLCsForwardable { min_delay_millis } => seq![
            Command::ProcessPendingForwards {
                min_delay_millis,
                max_delay_millis: five_times_saturating(min_delay_millis),
            },
        ],
        Event::ChannelPending {
            channel_id,
            funding_psbt_saved,
            is_colored,
            consignment_received,
            ..
        } => {
            if funding_psbt_saved {
                seq![Command::CompleteFunding { channel_id, colored: is_colored }]
            } else if consignment_received {
                seq![Command::RegisterReceivedAsset { channel_id }]
            } else {
                Seq::empty()
            }
        },
        Event::ChannelReady { .. } => seq![Command::RefreshAssets, Command::RefreshAssets],
        Event::HTLCIntercepted {
            is_swap,
            payment_hash,
            intercept_id,
            htlc,
            requested_next_hop_scid,
            next_node_id,
        } => {
            if is_swap && v.taker.contains_key(payment_hash) && swap_matches(
                v.taker[payment_hash].swap_info,
                htlc,
            ) && swap_update_result(v.taker, payment_hash, SwapStatus::Pending) is Ok {
                seq![
                    Command::ForwardInterceptedHtlc {
                        intercept_id,
                        next_hop_scid: requested_next_hop_scid,
                        next_node_id,
                        amount_msat: htlc.expected_outbound_amount_msat,
                        rgb_amount: htlc.expected_outbound_rgb_amount,
                    },
                ]
            } else {
                seq![Command::FailInterceptedHtlc { intercept_id }]
            }
        },
        _ => Seq::empty(),
    }
}

impl NodeState {
    /// Every ledger is well formed.
    pub open spec fn wf(&self) -> bool {
        &&& self.inbound_payments.wf()
        &&& self.outbound_payments.wf()
        &&& self.maker_swaps.wf()
        &&& self.taker_swaps.wf()
        &&& self.channel_ids.wf()
    }

    /// A node with empty ledgers and the funding lock free.
    pub fn new() -> (r: Self)
        ensures
            r.wf(),
            r@.inbound == Map::<Id32, PaymentInfo>::empty(),
            r@.outbound == Map::<Id32, PaymentInfo>::empty(),
            r@.maker == Map::<Id32, SwapData>::empty(),
            r@.taker == Map::<Id32, SwapData>::empty(),
            r@.channel_ids == Map::<Id32, Id32>::empty(),
            !r@.send_lock,
    {
        NodeState {
            inbound_payments: Ledger::new(),
            outbound_payments: Ledger::new(),
            maker_swaps: Ledger::new(),
            taker_swaps: Ledger::new(),
            channel_ids: Ledger::new(),
            rgb_send_lock: false,
        }
    }

    /// On restart: fails every pending outbound payment that the engine's
    /// list of recent payments does not hold.
    pub fn fail_outbound_pending_payments(&mut self, recent_payments_payment_ids: &Vec<Id32>)
        requires
            old(self).wf(),
        ensures
            final(self).wf(),
            final(self)@ == with_outbound(
                old(self)@,
                reconciled(old(self)@.outbound, recent_payments_payment_ids@),
            ),
    {
        self.outbound_payments.fail_pending_payments_except(recent_payments_payment_ids);
    }

    /// Records an inbound payment that was claimed or seen again: new ones
    /// are created, pending ones take the new status, preimage and secret.
    pub fn upsert_inbound_payment(
        &mut self,
        payment_hash: Id32,
        status: HTLCStatus,
        preimage: Option<Id32>,
        secret: Option<Id32>,
        amt_msat: Option<u64>,
    )
        requires
            old(self).wf(),
        ensures
            final(self).wf(),
            final(self)@ == with_inbound(
                old(self)@,
                upserted(old(self)@.inbound, payment_hash, status, preimage, secret, amt_msat),
            ),
    {
        self.inbound_payments.upsert_payment(payment_hash, status, preimage, secret, amt_msat);
    }

    /// Moves a pending outbound payment to `status` with `preimage`, and
    /// returns the record as it now stands.
    pub fn update_outbound_payment(
        &mut self,
        payment_id: Id32,
        status: HTLCStatus,
        preimage: Option<Id32>,
    ) -> (r: Option<PaymentInfo>)
        requires
            old(self).wf(),
        ensures
            final(self).wf(),
            final(self)@ == with_outbound(
                old(self)@,
                status_preimage_updated(old(self)@.outbound, payment_id, status, preimage),
            ),
            r == (if old(self)@.outbound.contains_key(payment_id) {
                Some(with_status_preimage(old(self)@.outbound[payment_id], status, preimage))
            } else {
                None
            }),
    {
        self.outbound_payments.update_outbound_payment(&payment_id, status, preimage)
    }

    /// Moves a pending outbound payment to `status`.
    pub fn update_outbound_payment_status(&mut self, payment_id: Id32, status: HTLCStatus)
        requires
            old(self).wf(),
        ensures
            final(self).wf(),
            final(self)@ == with_outbound(
                old(self)@,
                status_updated(old(self)@.outbound, payment_id, status),
            ),
    {
        self.outbound_payments.update_payment_status(&payment_id, status);
    }

    /// Moves a pending inbound payment to `status`.
    pub fn update_inbound_payment_status(&mut self, payment_hash: Id32, status: HTLCStatus)
        requires
            old(self).wf(),
        ensures
            final(self).wf(),
            final(self)@ == with_inbound(
                old(self)@,
                status_updated(old(self)@.inbound, payment_hash, status),
            ),
    {
        self.inbound_payments.update_payment_status(&payment_hash, status);
    }

    /// Moves the maker swap under `payment_hash` to `status` at the current
    /// time.
    pub fn update_maker_swap_status(&mut self, payment_hash: &Id32, status: SwapStatus) -> (r:
        Result<(), SwapUpdateError>)
        requires
            old(self).wf(),
        ensures
            final(self).wf(),
            r == swap_update_result(old(self)@.maker, *payment_hash, status),
            exists|now: u64|
                final(self)@ == with_maker(
                    old(self)@,
                    swap_updated(old(self)@.maker, *payment_hash, status, now),
                ),
    {
        self.maker_swaps.update_swap_status(payment_hash, status)
    }

    /// Moves the taker swap under `payment_hash` to `status` at the current
    /// time.
    pub fn update_taker_swap_status(&mut self, payment_hash: &Id32, status: SwapStatus) -> (r:
        Result<(), SwapUpdateError>)
        requires
            old(self).wf(),
        ensures
            final(self).wf(),
            r == swap_update_result(old(self)@.taker, *payment_hash, status),
            exists|now: u64|
                final(self)@ == with_taker(
                    old(self)@,
                    swap_updated(old(self)@.taker, *payment_hash, status, now),
                ),
    {
        self.taker_swaps.update_swap_status(payment_hash, status)
    }

    /// Applies `e`, arriving at time `now`, to the ledgers and returns the
    /// commands it calls for, in order.
    pub fn handle_event(&mut self, e: Event, now: u64) -> (r: Vec<Command>)
        requires
            old(self).wf(),
        ensures
            final(self).wf(),
            final(self)@ == next_view(old(self)@, e, now),
            r@ == commands_for(old(self)@, e),
    {
        let mut cmds: Vec<Command> = Vec::new();
        match e {
            Event::FundingGenerationReady {
                temporary_channel_id,
                counterparty_node_id,
                channel_value_satoshis,
                is_colored,
            } => {
                cmds.push(
                    Command::BuildFundingTransaction {
                        temporary_channel_id,
                        counterparty_node_id,
                        channel_value_satoshis,
                        colored: is_colored,
                    },
                );
            },
            Event::PaymentClaimable { preimage, .. } => {
                if let Some(p) = preimage {
                    cmds.push(Command::ClaimFunds { preimage: p });
                }
            },
            Event::PaymentClaimed { payment_hash, preimage, secret, amount_msat } => {
                cmds.push(Command::UpdateRgbPaymentAmount { payment_hash, receiver: true });
                if self.maker_swaps.contains_key(&payment_hash) {
                    let _ = self.maker_swaps.update_swap_status_at(
                        &payment_hash,
                        SwapStatus::Succeeded,
                        now,
                    );
                } else {
                    self.inbound_payments.upsert_payment(
                        payment_hash,
                        HTLCStatus::Succeeded,
                        preimage,
                        secret,
                        Some(amount_msat),
                    );
                }
            },
            Event::PaymentSent { payment_id, payment_hash, preimage } => {
                cmds.push(Command::UpdateRgbPaymentAmount { payment_hash, receiver: false });
                if self.maker_swaps.contains_key(&payment_hash) {
                    let _ = self.maker_swaps.update_swap_status_at(
                        &payment_hash,
                        SwapStatus::Succeeded,
                        now,
                    );
                } else if let Some(id) = payment_id {
                    let _ = self.outbound_payments.update_outbound_payment(
                        &id,
                        HTLCStatus::Succeeded,
                        Some(preimage),
                    );
                }
            },
            Event::PaymentFailed { payment_id, payment_hash } => {
                if self.maker_swaps.contains_key(&payment_hash) {
                    let _ = self.maker_swaps.update_swap_status_at(
                        &payment_hash,
                        SwapStatus::Failed,
                        now,
                    );
                } else {
                    self.outbound_payments.update_payment_status(&payment_id, HTLCStatus::Failed);
                }
            },
            Event::InvoiceRequestFailed { payment_id } => {
                self.outbound_payments.update_payment_status(&payment_id, HTLCStatus::Failed);
            },
            Event::PaymentForwarded {
                prev_channel_id,
                next_channel_id,
                outbound_amount_forwarded_rgb,
                inbound_amount_forwarded_rgb,
                payment_hash,
            } => {
                if let Some(a) = outbound_amount_forwarded_rgb {
                    cmds.push(
                        Command::UpdateRgbChannelAmount {
                            channel_id: next_channel_id,
                            offered: a,
                            received: 0,
                        },
                    );
                }
                if let Some(a) = inbound_amount_forwarded_rgb {
                    cmds.push(
                        Command::UpdateRgbChannelAmount {
                            channel_id: prev_channel_id,
                            offered: 0,
                            received: a,
                        },
                    );
                }
                if self.taker_swaps.contains_key(&payment_hash) {
                    let _ = self.taker_swaps.update_swap_status_at(
                        &payment_hash,
                        SwapStatus::Succeeded,
                        now,
                    );
                }
            },
            Event::OpenChannelRequest {
                temporary_channel_id,
                counterparty_node_id,
                user_channel_id,
            } => {
                cmds.push(
                    Command::AcceptInboundChannel {
                        temporary_channel_id,
                        counterparty_node_id,
                        user_channel_id,
                    },
                );
            },
            Event::PendingHTLCsForwardable { min_delay_millis } => {
                let max_delay_millis = if min_delay_millis <= u64::MAX / 5 {
                    min_delay_millis * 5
                } else {
                    u64::MAX
                };
                cmds.push(Command::ProcessPendingForwards { min_delay_millis, max_delay_millis });
            },
            Event::ChannelPending {
                channel_id,
                former_temporary_channel_id,
                funding_psbt_saved,
                is_colored,
                consignment_received,
            } => {
                if let Some(t) = former_temporary_channel_id {
                    self.channel_ids.add_channel_id(t, channel_id);
                }
                if funding_psbt_saved {
                    cmds.push(Command::CompleteFunding { channel_id, colored: is_colored });
                    self.rgb_send_lock = false;
                } else if consignment_received {
                    cmds.push(Command::RegisterReceivedAsset { channel_id });
                }
            },
            Event::ChannelReady { .. } => {
                cmds.push(Command::RefreshAssets);
                cmds.push(Command::RefreshAssets);
            },
            Event::ChannelClosed { channel_id } => {
                self.inbound_payments.fail_all_pending_payments();
                self.outbound_payments.fail_all_pending_payments();
                self.channel_ids.delete_channel_id(&channel_id);
            },
            Event::DiscardFunding { channel_id } => {
                self.rgb_send_lock = false;
                self.channel_ids.delete_channel_id(&channel_id);
            },
            Event::HTLCIntercepted {
                is_swap,
                payment_hash,
                intercept_id,
                htlc,
                requested_next_hop_scid,
                next_node_id,
            } => {
                let forward = if !is_swap {
                    false
                } else {
                    match self.taker_swaps.get(&payment_hash) {
                        None => false,
                        Some(swap) => {
                            if !validate_swap(&swap.swap_info, &htlc) {
                                let _ = self.taker_swaps.update_swap_status_at(
                                    &payment_hash,
                                    SwapStatus::Failed,
                                    now,
                                );
                                false
                            } else {
                                self.taker_swaps.update_swap_status_at(
                                    &payment_hash,
                                    SwapStatus::Pending,
                                    now,
                                ).is_ok()
                            }
                        },
                    }
                };
                if forward {
                    cmds.push(
                        Command::ForwardInterceptedHtlc {
                            intercept_id,
                            next_hop_scid: requested_next_hop_scid,
                            next_node_id,
                            amount_msat: htlc.expected_outbound_amount_msat,
                            rgb_amount: htlc.expected_outbound_rgb_amount,
                        },
                    );
                } else {
                    cmds.push(Command::FailInterceptedHtlc { intercept_id });
                }
            },
        }
        proof {
            assert(cmds@ =~= commands_for(old(self)@, e));
            assert(self@ =~= next_view(old(self)@, e, now));
        }
        cmds
    }
}

/// No event re-opens an ended payment: a payment that has succeeded or
/// failed, inbound or outbound, is left exactly as it was.
pub proof fn lemma_ended_payments_stay_ended(v: NodeView, e: Event, now: u64, k: Id32)
    ensures
        v.inbound.contains_key(k) && is_terminal(v.inbound[k].status) ==> next_view(
            v,
            e,
            now,
        ).inbound.contains_key(k) && next_view(v, e, now).inbound[k] == v.inbound[k],
        v.outbound.contains_key(k) && is_terminal(v.outbound[k].status) ==> next_view(
            v,
            e,
            now,
        ).outbound.contains_key(k) && next_view(v, e, now).outbound[k] == v.outbound[k],
{
    if v.inbound.contains_key(k) && is_terminal(v.inbound[k].status) {
        lemma_terminal_status_is_kept(
            v.inbound,
            k,
            HTLCStatus::Succeeded,
            None,
            None,
            None,
            Seq::empty(),
        );
        match e {
            Event::PaymentClaimed { payment_hash, preimage, secret, amount_msat } => {
                lemma_terminal_status_is_kept(
                    v.inbound,
                    k,
                    HTLCStatus::Succeeded,
                    preimage,
                    secret,
                    Some(amount_msat),
                    Seq::empty(),
                );
            },
            _ => {},
        }
    }
    if v.outbound.contains_key(k) && is_terminal(v.outbound[k].status) {
        lemma_terminal_status_is_kept(
            v.outbound,
            k,
            HTLCStatus::Failed,
            None,
            None,
            None,
            Seq::empty(),
        );
        match e {
            Event::PaymentSent { preimage, .. } => {
                lemma_terminal_status_is_kept(
                    v.outbound,
                    k,
                    HTLCStatus::Succeeded,
                    Some(preimage),
                    None,
                    None,
                    Seq::empty(),
                );
            },
            _ => {},
        }
    }
}

/// After a channel is reported pending under its temporary id and then
/// closed under its final id, the temporary id resolves to nothing.
pub proof fn lemma_pending_then_closed_forgets_channel(
    v: NodeView,
    channel_id: Id32,
    temporary: Id32,
    funding_psbt_saved: bool,
    is_colored: bool,
    consignment_received: bool,
    now: u64,
    later: u64,
)
    ensures
        !next_view(
            next_view(
                v,
                Event::ChannelPending {
                    channel_id,
                    former_temporary_channel_id: Some(temporary),
                    funding_psbt_saved,
                    is_colored,
                    consignment_received,
                },
                now,
            ),
            Event::ChannelClosed { channel_id },
            later,
        ).channel_ids.contains_key(temporary),
{
    crate::channel_ids::lemma_closed_channel_forgotten(v.channel_ids, temporary, channel_id);
}

/// An intercepted swap HTLC that does not match the terms of its whitelisted,
/// not yet ended swap is failed, once, never forwarded, and the swap ends
/// `Failed` at that time. For a swap that pays bitcoin for an asset this
/// covers a partial match, and an outbound amount below the inbound one.
pub proof fn lemma_mismatched_swap_htlc_fails(
    v: NodeView,
    payment_hash: Id32,
    intercept_id: Id32,
    htlc: InterceptedHtlc,
    requested_next_hop_scid: u64,
    next_node_id: NodeId,
    now: u64,
)
    requires
        v.taker.contains_key(payment_hash),
        !swap_is_terminal(v.taker[payment_hash].status),
        !swap_matches(v.taker[payment_hash].swap_info, htlc),
    ensures
        ({
            let e = Event::HTLCIntercepted {
                is_swap: true,
                payment_hash,
                intercept_id,
                htlc,
                requested_next_hop_scid,
                next_node_id,
            };
            &&& commands_for(v, e) == seq![Command::FailInterceptedHtlc { intercept_id }]
            &&& next_view(v, e, now).taker[payment_hash].status == SwapStatus::Failed
            &&& next_view(v, e, now).taker[payment_hash].completed_at == Some(now)
        }),
{
}

} // verus!
