use rgb_ldk_core::events::{Command, Event, NodeState};
use rgb_ldk_core::payment::{HTLCStatus, PaymentInfo};
use rgb_ldk_core::swap::{InterceptedHtlc, SwapData, SwapInfo, SwapStatus};

fn id(b: u8) -> [u8; 32] {
    [b; 32]
}

fn pending() -> PaymentInfo {
    PaymentInfo { preimage: None, secret: None, status: HTLCStatus::Pending, amt_msat: Some(1) }
}

fn waiting(from: Option<[u8; 32]>, to: Option<[u8; 32]>, qf: u64, qt: u64) -> SwapData {
    SwapData {
        swap_info: SwapInfo { from_asset: from, to_asset: to, qty_from: qf, qty_to: qt },
        status: SwapStatus::Waiting,
        initiated_at: None,
        completed_at: None,
    }
}

fn intercepted(is_swap: bool, hash: u8, inb: u64, out: u64, in_rgb: Option<u64>) -> Event {
    Event::HTLCIntercepted {
        is_swap,
        payment_hash: id(hash),
        intercept_id: id(200),
        htlc: InterceptedHtlc {
            inbound_amount_msat: inb,
            expected_outbound_amount_msat: out,
            inbound_rgb_amount: in_rgb,
            expected_outbound_rgb_amount: None,
            inbound_contract_id: Some(id(7)),
            outbound_contract_id: None,
        },
        requested_next_hop_scid: 77,
        next_node_id: [3u8; 33],
    }
}

#[test]
fn claimed_payment_is_recorded_as_succeeded() {
    let mut n = NodeState::new();
    let cmds = n.handle_event(
        Event::PaymentClaimed {
            payment_hash: id(1),
            preimage: Some(id(2)),
            secret: Some(id(3)),
            amount_msat: 5000,
        },
        10,
    );
    assert_eq!(cmds.len(), 1);
    assert!(matches!(cmds[0], Command::UpdateRgbPaymentAmount { receiver: true, .. }));
    let p = n.inbound_payments.get(&id(1)).unwrap();
    assert_eq!(p.status, HTLCStatus::Succeeded);
    assert_eq!(p.preimage, Some(id(2)));
    assert_eq!(p.amt_msat, Some(5000));
}

#[test]
fn claimed_maker_swap_succeeds_instead() {
    let mut n = NodeState::new();
    n.maker_swaps.insert(id(1), waiting(None, Some(id(7)), 1, 1));
    n.handle_event(
        Event::PaymentClaimed { payment_hash: id(1), preimage: None, secret: None, amount_msat: 1 },
        10,
    );
    assert_eq!(n.maker_swaps.get(&id(1)).unwrap().status, SwapStatus::Succeeded);
    assert!(!n.inbound_payments.contains_key(&id(1)));
}

#[test]
fn sent_and_failed_outbound_payments() {
    let mut n = NodeState::new();
    n.outbound_payments.insert(id(5), pending());
    n.outbound_payments.insert(id(6), pending());
    let cmds = n.handle_event(
        Event::PaymentSent { payment_id: Some(id(5)), payment_hash: id(50), preimage: id(9) },
        1,
    );
    assert!(matches!(cmds[0], Command::UpdateRgbPaymentAmount { receiver: false, .. }));
    let p = n.outbound_payments.get(&id(5)).unwrap();
    assert_eq!(p.status, HTLCStatus::Succeeded);
    assert_eq!(p.preimage, Some(id(9)));
    n.handle_event(Event::PaymentFailed { payment_id: id(6), payment_hash: id(60) }, 2);
    assert_eq!(n.outbound_payments.get(&id(6)).unwrap().status, HTLCStatus::Failed);
    n.handle_event(Event::PaymentFailed { payment_id: id(5), payment_hash: id(50) }, 3);
    assert_eq!(n.outbound_payments.get(&id(5)).unwrap().status, HTLCStatus::Succeeded);
}

#[test]
fn invoice_request_failure_fails_payment() {
    let mut n = NodeState::new();
    n.outbound_payments.insert(id(5), pending());
    let cmds = n.handle_event(Event::InvoiceRequestFailed { payment_id: id(5) }, 1);
    assert!(cmds.is_empty());
    assert_eq!(n.outbound_payments.get(&id(5)).unwrap().status, HTLCStatus::Failed);
}

#[test]
fn claimable_payment_is_claimed_with_its_preimage() {
    let mut n = NodeState::new();
    let cmds = n.handle_event(Event::PaymentClaimable { payment_hash: id(1), preimage: Some(id(4)) }, 1);
    assert!(matches!(cmds[0], Command::ClaimFunds { preimage } if preimage == id(4)));
    let none = n.handle_event(Event::PaymentClaimable { payment_hash: id(1), preimage: None }, 1);
    assert!(none.is_empty());
}

#[test]
fn pending_then_closed_channel_is_forgotten() {
    let mut n = NodeState::new();
    n.inbound_payments.insert(id(1), pending());
    n.outbound_payments.insert(id(2), pending());
    n.rgb_send_lock = true;
    let cmds = n.handle_event(
        Event::ChannelPending {
            channel_id: id(10),
            former_temporary_channel_id: Some(id(11)),
            funding_psbt_saved: true,
            is_colored: true,
            consignment_received: false,
        },
        1,
    );
    assert!(matches!(cmds[0], Command::CompleteFunding { colored: true, .. }));
    assert!(!n.rgb_send_lock);
    assert_eq!(n.channel_ids.get(&id(11)), Some(id(10)));
    n.handle_event(Event::ChannelClosed { channel_id: id(10) }, 2);
    assert!(!n.channel_ids.contains_key(&id(11)));
    assert_eq!(n.inbound_payments.get(&id(1)).unwrap().status, HTLCStatus::Failed);
    assert_eq!(n.outbound_payments.get(&id(2)).unwrap().status, HTLCStatus::Failed);
}

#[test]
fn acceptor_registers_received_asset() {
    let mut n = NodeState::new();
    let cmds = n.handle_event(
        Event::ChannelPending {
            channel_id: id(10),
            former_temporary_channel_id: None,
            funding_psbt_saved: false,
            is_colored: false,
            consignment_received: true,
        },
        1,
    );
    assert!(matches!(cmds[0], Command::RegisterReceivedAsset { .. }));
    assert_eq!(n.channel_ids.len(), 0);
    let none = n.handle_event(
        Event::ChannelPending {
            channel_id: id(10),
            former_temporary_channel_id: None,
            funding_psbt_saved: false,
            is_colored: false,
            consignment_received: false,
        },
        1,
    );
    assert!(none.is_empty());
}

#[test]
fn discard_funding_releases_lock() {
    let mut n = NodeState::new();
    n.rgb_send_lock = true;
    n.channel_ids.insert(id(1), id(2));
    n.handle_event(Event::DiscardFunding { channel_id: id(2) }, 1);
    assert!(!n.rgb_send_lock);
    assert!(!n.channel_ids.contains_key(&id(1)));
}

#[test]
fn channel_ready_refreshes_twice() {
    let mut n = NodeState::new();
    let cmds = n.handle_event(Event::ChannelReady { channel_id: id(1) }, 1);
    assert_eq!(cmds.len(), 2);
    assert!(cmds.iter().all(|c| matches!(c, Command::RefreshAssets)));
}

#[test]
fn forwarded_payment_updates_both_legs_and_taker_swap() {
    let mut n = NodeState::new();
    n.taker_swaps.insert(id(1), waiting(None, Some(id(7)), 1, 1));
    n.taker_swaps.update_swap_status_at(&id(1), SwapStatus::Pending, 5).unwrap();
    let cmds = n.handle_event(
        Event::PaymentForwarded {
            prev_channel_id: id(20),
            next_channel_id: id(21),
            outbound_amount_forwarded_rgb: Some(30),
            inbound_amount_forwarded_rgb: Some(40),
            payment_hash: id(1),
        },
        9,
    );
    assert_eq!(cmds.len(), 2);
    assert!(matches!(cmds[0], Command::UpdateRgbChannelAmount { channel_id, offered: 30, received: 0 } if channel_id == id(21)));
    assert!(matches!(cmds[1], Command::UpdateRgbChannelAmount { channel_id, offered: 0, received: 40 } if channel_id == id(20)));
    let d = n.taker_swaps.get(&id(1)).unwrap();
    assert_eq!(d.status, SwapStatus::Succeeded);
    assert_eq!(d.completed_at, Some(9));
}

#[test]
fn open_request_and_forward_delay() {
    let mut n = NodeState::new();
    let cmds = n.handle_event(
        Event::OpenChannelRequest {
            temporary_channel_id: id(1),
            counterparty_node_id: [2u8; 33],
            user_channel_id: 12345,
        },
        1,
    );
    assert!(matches!(cmds[0], Command::AcceptInboundChannel { user_channel_id: 12345, .. }));
    let cmds = n.handle_event(Event::PendingHTLCsForwardable { min_delay_millis: 100 }, 1);
    assert!(matches!(cmds[0], Command::ProcessPendingForwards { min_delay_millis: 100, max_delay_millis: 500 }));
    let cmds = n.handle_event(Event::PendingHTLCsForwardable { min_delay_millis: u64::MAX }, 1);
    assert!(matches!(cmds[0], Command::ProcessPendingForwards { max_delay_millis: u64::MAX, .. }));
}

#[test]
fn funding_generation_builds_transaction() {
    let mut n = NodeState::new();
    let cmds = n.handle_event(
        Event::FundingGenerationReady {
            temporary_channel_id: id(1),
            counterparty_node_id: [2u8; 33],
            channel_value_satoshis: 600,
            is_colored: true,
        },
        1,
    );
    assert!(matches!(cmds[0], Command::BuildFundingTransaction { channel_value_satoshis: 600, colored: true, .. }));
}

#[test]
fn intercepted_htlc_without_swap_flag_or_whitelist_fails() {
    let mut n = NodeState::new();
    let cmds = n.handle_event(intercepted(false, 1, 1000, 4000, Some(10)), 1);
    assert!(matches!(cmds[0], Command::FailInterceptedHtlc { .. }));
    let cmds = n.handle_event(intercepted(true, 1, 1000, 4000, Some(10)), 1);
    assert!(matches!(cmds[0], Command::FailInterceptedHtlc { .. }));
}

#[test]
fn matching_swap_is_forwarded_and_pending() {
    let mut n = NodeState::new();
    n.taker_swaps.insert(id(1), waiting(None, Some(id(7)), 3000, 10));
    let cmds = n.handle_event(intercepted(true, 1, 1000, 4000, Some(10)), 33);
    assert_eq!(cmds.len(), 1);
    assert!(matches!(cmds[0], Command::ForwardInterceptedHtlc { next_hop_scid: 77, amount_msat: 4000, rgb_amount: None, .. }));
    let d = n.taker_swaps.get(&id(1)).unwrap();
    assert_eq!(d.status, SwapStatus::Pending);
    assert_eq!(d.initiated_at, Some(33));
    let again = n.handle_event(intercepted(true, 1, 1000, 4000, Some(10)), 34);
    assert!(matches!(again[0], Command::FailInterceptedHtlc { .. }));
}

#[test]
fn mismatching_swap_is_failed() {
    let mut n = NodeState::new();
    n.taker_swaps.insert(id(1), waiting(None, Some(id(7)), 3000, 10));
    let cmds = n.handle_event(intercepted(true, 1, 1000, 4000, Some(9)), 33);
    assert!(matches!(cmds[0], Command::FailInterceptedHtlc { .. }));
    let d = n.taker_swaps.get(&id(1)).unwrap();
    assert_eq!(d.status, SwapStatus::Failed);
    assert_eq!(d.completed_at, Some(33));
}

#[test]
fn restart_reconciliation_is_idempotent() {
    let mut n = NodeState::new();
    n.outbound_payments.insert(id(1), pending());
    n.outbound_payments.insert(id(2), pending());
    let recent = vec![id(2)];
    n.fail_outbound_pending_payments(&recent);
    n.fail_outbound_pending_payments(&recent);
    assert_eq!(n.outbound_payments.get(&id(1)).unwrap().status, HTLCStatus::Failed);
    assert_eq!(n.outbound_payments.get(&id(2)).unwrap().status, HTLCStatus::Pending);
}

#[test]
fn node_level_payment_and_swap_updates() {
    let mut n = NodeState::new();
    n.upsert_inbound_payment(id(1), HTLCStatus::Pending, None, None, Some(3));
    n.update_inbound_payment_status(id(1), HTLCStatus::Succeeded);
    assert_eq!(n.inbound_payments.get(&id(1)).unwrap().status, HTLCStatus::Succeeded);
    n.outbound_payments.insert(id(2), pending());
    n.update_outbound_payment_status(id(2), HTLCStatus::Failed);
    assert_eq!(n.outbound_payments.get(&id(2)).unwrap().status, HTLCStatus::Failed);
    n.outbound_payments.insert(id(3), pending());
    let r = n.update_outbound_payment(id(3), HTLCStatus::Succeeded, Some(id(4))).unwrap();
    assert_eq!(r.preimage, Some(id(4)));
    n.maker_swaps.insert(id(5), waiting(None, Some(id(7)), 1, 1));
    assert!(n.update_maker_swap_status(&id(5), SwapStatus::Pending).is_ok());
    assert!(n.maker_swaps.get(&id(5)).unwrap().initiated_at.is_some());
    assert!(n.update_taker_swap_status(&id(5), SwapStatus::Pending).is_err());
}

#[test]
fn from_btc_swap_with_outbound_below_inbound_is_failed() {
    let mut n = NodeState::new();
    n.taker_swaps.insert(id(1), waiting(None, Some(id(7)), 3000, 10));
    let cmds = n.handle_event(intercepted(true, 1, 4000, 1000, Some(10)), 7);
    assert_eq!(cmds.len(), 1);
    assert!(matches!(cmds[0], Command::FailInterceptedHtlc { intercept_id } if intercept_id == id(200)));
    let d = n.taker_swaps.get(&id(1)).unwrap();
    assert_eq!(d.status, SwapStatus::Failed);
    assert_eq!(d.completed_at, Some(7));
}
