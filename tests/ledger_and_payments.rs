use rgb_ldk_core::ledger::{same_id, Ledger};
use rgb_ldk_core::payment::{HTLCStatus, PaymentInfo, PaymentLedger};

fn id(b: u8) -> [u8; 32] {
    [b; 32]
}

fn pending(amt: u64) -> PaymentInfo {
    PaymentInfo { preimage: None, secret: None, status: HTLCStatus::Pending, amt_msat: Some(amt) }
}

#[test]
fn same_id_compares_every_byte() {
    let a = id(1);
    let mut b = id(1);
    assert!(same_id(&a, &b));
    b[31] = 2;
    assert!(!same_id(&a, &b));
}

#[test]
fn ledger_insert_get_remove() {
    let mut l: Ledger<u64> = Ledger::new();
    assert_eq!(l.len(), 0);
    l.insert(id(1), 10);
    l.insert(id(2), 20);
    l.insert(id(1), 11);
    assert_eq!(l.len(), 2);
    assert_eq!(l.get(&id(1)), Some(11));
    assert_eq!(l.get(&id(2)), Some(20));
    assert!(l.contains_key(&id(2)));
    l.remove(&id(2));
    assert!(!l.contains_key(&id(2)));
    assert_eq!(l.get(&id(2)), None);
    l.remove(&id(9));
    assert_eq!(l.len(), 1);
}

#[test]
fn status_update_moves_pending_only() {
    let mut l: PaymentLedger = Ledger::new();
    l.add_payment(id(1), pending(1000));
    l.update_payment_status(&id(1), HTLCStatus::Succeeded);
    assert_eq!(l.get(&id(1)).unwrap().status, HTLCStatus::Succeeded);
    l.update_payment_status(&id(1), HTLCStatus::Pending);
    assert_eq!(l.get(&id(1)).unwrap().status, HTLCStatus::Succeeded);
    l.update_payment_status(&id(1), HTLCStatus::Failed);
    assert_eq!(l.get(&id(1)).unwrap().status, HTLCStatus::Succeeded);
    l.update_payment_status(&id(7), HTLCStatus::Failed);
    assert!(!l.contains_key(&id(7)));
}

#[test]
fn failed_payment_is_not_reopened() {
    let mut l: PaymentLedger = Ledger::new();
    l.add_payment(id(1), pending(5));
    l.update_payment_status(&id(1), HTLCStatus::Failed);
    l.upsert_payment(id(1), HTLCStatus::Pending, Some(id(3)), None, Some(9));
    let p = l.get(&id(1)).unwrap();
    assert_eq!(p.status, HTLCStatus::Failed);
    assert_eq!(p.preimage, None);
    assert_eq!(p.amt_msat, Some(5));
    let r = l.update_outbound_payment(&id(1), HTLCStatus::Pending, Some(id(4))).unwrap();
    assert_eq!(r.status, HTLCStatus::Failed);
    assert_eq!(r.preimage, None);
}

#[test]
fn upsert_creates_then_updates_keeping_amount() {
    let mut l: PaymentLedger = Ledger::new();
    l.upsert_payment(id(1), HTLCStatus::Pending, None, None, Some(700));
    assert_eq!(l.get(&id(1)).unwrap().amt_msat, Some(700));
    l.upsert_payment(id(1), HTLCStatus::Succeeded, Some(id(5)), Some(id(6)), Some(1));
    let p = l.get(&id(1)).unwrap();
    assert_eq!(p.status, HTLCStatus::Succeeded);
    assert_eq!(p.preimage, Some(id(5)));
    assert_eq!(p.secret, Some(id(6)));
    assert_eq!(p.amt_msat, Some(700));
}

#[test]
fn update_outbound_payment_returns_new_record() {
    let mut l: PaymentLedger = Ledger::new();
    assert!(l.update_outbound_payment(&id(1), HTLCStatus::Succeeded, None).is_none());
    l.add_payment(id(1), pending(42));
    let r = l.update_outbound_payment(&id(1), HTLCStatus::Succeeded, Some(id(8))).unwrap();
    assert_eq!(r.status, HTLCStatus::Succeeded);
    assert_eq!(r.preimage, Some(id(8)));
    assert_eq!(r.amt_msat, Some(42));
}

#[test]
fn reconciliation_fails_unlisted_pending_once() {
    let mut l: PaymentLedger = Ledger::new();
    l.add_payment(id(1), pending(1));
    l.add_payment(id(2), pending(2));
    l.add_payment(id(3), pending(3));
    l.update_payment_status(&id(3), HTLCStatus::Succeeded);
    let recent = vec![id(2)];
    l.fail_pending_payments_except(&recent);
    assert_eq!(l.get(&id(1)).unwrap().status, HTLCStatus::Failed);
    assert_eq!(l.get(&id(2)).unwrap().status, HTLCStatus::Pending);
    assert_eq!(l.get(&id(3)).unwrap().status, HTLCStatus::Succeeded);
    l.fail_pending_payments_except(&recent);
    assert_eq!(l.get(&id(1)).unwrap().status, HTLCStatus::Failed);
    assert_eq!(l.get(&id(2)).unwrap().status, HTLCStatus::Pending);
    assert_eq!(l.get(&id(3)).unwrap().status, HTLCStatus::Succeeded);
    assert_eq!(l.len(), 3);
}

#[test]
fn fail_all_pending_payments_leaves_ended_ones() {
    let mut l: PaymentLedger = Ledger::new();
    l.add_payment(id(1), pending(1));
    l.add_payment(id(2), pending(2));
    l.update_payment_status(&id(2), HTLCStatus::Succeeded);
    l.fail_all_pending_payments();
    assert_eq!(l.get(&id(1)).unwrap().status, HTLCStatus::Failed);
    assert_eq!(l.get(&id(2)).unwrap().status, HTLCStatus::Succeeded);
}

#[test]
fn key_and_value_at_follow_storage_order() {
    let mut l: PaymentLedger = Ledger::new();
    l.add_payment(id(4), pending(4));
    l.add_payment(id(5), pending(5));
    assert_eq!(l.key_at(0), id(4));
    assert_eq!(l.value_at(1).amt_msat, Some(5));
    l.set_value_at(1, pending(50));
    assert_eq!(l.get(&id(5)).unwrap().amt_msat, Some(50));
}
