use rgb_ldk_core::channel_ids::ChannelIdsMap;
use rgb_ldk_core::ledger::Ledger;
use rgb_ldk_core::swap::{
    validate_swap, InterceptedHtlc, SwapData, SwapInfo, SwapMap, SwapStatus, SwapUpdateError,
};

fn id(b: u8) -> [u8; 32] {
    [b; 32]
}

fn swap(from: Option<[u8; 32]>, to: Option<[u8; 32]>, qf: u64, qt: u64) -> SwapData {
    SwapData {
        swap_info: SwapInfo { from_asset: from, to_asset: to, qty_from: qf, qty_to: qt },
        status: SwapStatus::Waiting,
        initiated_at: None,
        completed_at: None,
    }
}

fn htlc(
    inb: u64,
    out: u64,
    in_rgb: Option<u64>,
    out_rgb: Option<u64>,
    in_c: Option<[u8; 32]>,
    out_c: Option<[u8; 32]>,
) -> InterceptedHtlc {
    InterceptedHtlc {
        inbound_amount_msat: inb,
        expected_outbound_amount_msat: out,
        inbound_rgb_amount: in_rgb,
        expected_outbound_rgb_amount: out_rgb,
        inbound_contract_id: in_c,
        outbound_contract_id: out_c,
    }
}

#[test]
fn from_btc_swap_accepts_exact_terms_only() {
    let info = swap(None, Some(id(7)), 3000, 10).swap_info;
    assert!(validate_swap(&info, &htlc(1000, 4000, Some(10), None, Some(id(7)), None)));
    assert!(!validate_swap(&info, &htlc(1000, 4001, Some(10), None, Some(id(7)), None)));
    assert!(!validate_swap(&info, &htlc(1000, 4000, Some(11), None, Some(id(7)), None)));
    assert!(!validate_swap(&info, &htlc(1000, 4000, None, None, Some(id(7)), None)));
    assert!(!validate_swap(&info, &htlc(1000, 4000, Some(10), None, Some(id(8)), None)));
    assert!(!validate_swap(&info, &htlc(5000, 1000, Some(10), None, Some(id(7)), None)));
}

#[test]
fn to_btc_swap_saturates_the_difference() {
    let info = swap(Some(id(7)), None, 10, 3000).swap_info;
    assert!(validate_swap(&info, &htlc(4000, 1000, None, Some(10), None, Some(id(7)))));
    assert!(!validate_swap(&info, &htlc(4000, 1000, None, Some(9), None, Some(id(7)))));
    assert!(!validate_swap(&info, &htlc(4000, 1000, None, Some(10), None, Some(id(6)))));
    let zero = swap(Some(id(7)), None, 10, 0).swap_info;
    assert!(validate_swap(&zero, &htlc(1000, 4000, None, Some(10), None, Some(id(7)))));
}

#[test]
fn asset_for_asset_swap_moves_no_bitcoin() {
    let info = swap(Some(id(1)), Some(id(2)), 5, 6).swap_info;
    assert!(validate_swap(&info, &htlc(900, 900, Some(6), Some(5), Some(id(2)), Some(id(1)))));
    assert!(!validate_swap(&info, &htlc(901, 900, Some(6), Some(5), Some(id(2)), Some(id(1)))));
    assert!(!validate_swap(&info, &htlc(900, 900, Some(5), Some(6), Some(id(2)), Some(id(1)))));
    assert!(!validate_swap(&info, &htlc(900, 900, Some(6), Some(5), Some(id(1)), Some(id(2)))));
}

#[test]
fn swap_kind_follows_missing_asset() {
    assert!(swap(None, Some(id(1)), 1, 1).swap_info.is_from_btc());
    assert!(swap(Some(id(1)), None, 1, 1).swap_info.is_to_btc());
    let a = swap(Some(id(1)), Some(id(2)), 1, 1).swap_info;
    assert!(!a.is_from_btc() && !a.is_to_btc());
}

#[test]
fn swap_status_moves_and_stamps() {
    let mut m: SwapMap = Ledger::new();
    m.insert(id(1), swap(None, Some(id(2)), 1, 1));
    assert_eq!(m.update_swap_status_at(&id(1), SwapStatus::Pending, 100), Ok(()));
    let d = m.get(&id(1)).unwrap();
    assert_eq!(d.status, SwapStatus::Pending);
    assert_eq!(d.initiated_at, Some(100));
    assert_eq!(d.completed_at, None);
    assert_eq!(m.update_swap_status_at(&id(1), SwapStatus::Succeeded, 200), Ok(()));
    let d = m.get(&id(1)).unwrap();
    assert_eq!(d.status, SwapStatus::Succeeded);
    assert_eq!(d.completed_at, Some(200));
    assert_eq!(d.initiated_at, Some(100));
}

#[test]
fn swap_status_errors() {
    let mut m: SwapMap = Ledger::new();
    assert_eq!(
        m.update_swap_status_at(&id(1), SwapStatus::Failed, 1),
        Err(SwapUpdateError::UnknownSwap)
    );
    m.insert(id(1), swap(None, Some(id(2)), 1, 1));
    assert_eq!(
        m.update_swap_status_at(&id(1), SwapStatus::Waiting, 1),
        Err(SwapUpdateError::InvariantViolated)
    );
    assert_eq!(m.update_swap_status_at(&id(1), SwapStatus::Expired, 2), Ok(()));
    assert_eq!(
        m.update_swap_status_at(&id(1), SwapStatus::Pending, 3),
        Err(SwapUpdateError::NotAllowed)
    );
    let d = m.get(&id(1)).unwrap();
    assert_eq!(d.status, SwapStatus::Expired);
    assert_eq!(d.completed_at, Some(2));
}

#[test]
fn swap_status_with_clock_stamps_current_time() {
    let mut m: SwapMap = Ledger::new();
    m.insert(id(1), swap(None, Some(id(2)), 1, 1));
    assert_eq!(m.update_swap_status(&id(1), SwapStatus::Failed), Ok(()));
    assert!(m.get(&id(1)).unwrap().completed_at.unwrap() > 1_600_000_000);
}

#[test]
fn channel_ids_add_and_delete_by_final_id() {
    let mut m: ChannelIdsMap = Ledger::new();
    m.add_channel_id(id(1), id(10));
    m.add_channel_id(id(2), id(20));
    m.add_channel_id(id(3), id(10));
    assert_eq!(m.get(&id(1)), Some(id(10)));
    m.delete_channel_id(&id(10));
    assert!(!m.contains_key(&id(1)));
    assert!(!m.contains_key(&id(3)));
    assert_eq!(m.get(&id(2)), Some(id(20)));
    m.delete_channel_id(&id(99));
    assert_eq!(m.len(), 1);
}
