use canistore_core::payment::{
    check_page_size, generate_order_subaccount, ConfirmStep, PaymentStatus, PaymentType, PayStore,
    PAYMENT_TIMEOUT_NANOS,
};
use canistore_core::principal::PrincipalId;
use canistore_core::space_types::{QueryCommonReq, QuerySort};

const NOW: u64 = 1_000_000_000_000;

fn store_with_order(amount: u64) -> (PayStore, PrincipalId) {
    let payer = PrincipalId::new(42);
    let mut store = PayStore::new();
    let info = store.create_award_order(
        1,
        payer,
        "award".to_string(),
        "ICP".to_string(),
        amount,
        PaymentType::AwardPrice,
        NOW,
    );
    assert_eq!(info.id, 1);
    assert_eq!(info.amount, amount);
    assert_eq!(info.recipient, generate_order_subaccount(payer, 1));
    (store, payer)
}

#[test]
fn order_settles_once_the_deposit_covers_the_amount() {
    let (mut store, _) = store_with_order(1000);

    // First confirmation: the balance is still zero, so the order drops
    // back to Unpaid and the confirmation fails.
    assert_eq!(store.confirm_begin(1, NOW + 1), Ok(ConfirmStep::CheckBalance));
    assert!(store.confirm_finish(1, 0, NOW + 1).is_err());
    let order = store.get_payment_order(1).unwrap();
    assert_eq!(order.status, PaymentStatus::Unpaid);
    assert_eq!(order.amount_paid, 0);
    assert_eq!(order.verified_time, None);

    // The deposit arrives; the retry settles the order.
    assert_eq!(store.confirm_begin(1, NOW + 2), Ok(ConfirmStep::CheckBalance));
    assert_eq!(store.confirm_finish(1, 1000, NOW + 2), Ok(true));
    let order = store.get_payment_order(1).unwrap();
    assert_eq!(order.status, PaymentStatus::Paid);
    assert_eq!(order.amount_paid, 1000);
    assert_eq!(order.verified_time, Some(NOW + 2));

    // A later confirmation succeeds at once: no balance query is owed.
    assert_eq!(store.confirm_begin(1, NOW + 3), Ok(ConfirmStep::AlreadyPaid));
    assert_eq!(store.get_payment_order(1).unwrap().status, PaymentStatus::Paid);
}

#[test]
fn unfunded_order_times_out_and_stays_timed_out() {
    let (mut store, _) = store_with_order(1000);
    let late = NOW + PAYMENT_TIMEOUT_NANOS + 1;
    assert_eq!(store.confirm_begin(1, late), Ok(ConfirmStep::TimedOut));
    assert_eq!(store.get_payment_order(1).unwrap().status, PaymentStatus::TimedOut);

    // Further confirmations keep failing without reopening the order.
    assert_eq!(store.confirm_begin(1, late + 1), Ok(ConfirmStep::NotConfirmable));
    assert_eq!(store.confirm_begin(1, late + 2), Ok(ConfirmStep::NotConfirmable));
    assert_eq!(store.get_payment_order(1).unwrap().status, PaymentStatus::TimedOut);
}

#[test]
fn confirmation_needs_an_existing_order_in_the_right_state() {
    let (mut store, _) = store_with_order(10);
    assert!(store.confirm_begin(9, NOW).is_err());
    // Finishing without a pending verification is refused.
    assert!(store.confirm_finish(1, 10, NOW).is_err());
    assert_eq!(store.get_payment_order(1).unwrap().status, PaymentStatus::Unpaid);
}

#[test]
fn refund_is_owner_only_and_marks_the_order_refunded() {
    let (mut store, payer) = store_with_order(500);
    let stranger = PrincipalId::new(7);
    assert!(store.refund_precheck(1, stranger).is_err());
    assert!(store.refund_precheck(1, payer).is_ok());

    // A failed transfer leaves the order exactly as it was.
    assert!(store.refund_finish(1, payer, 400, false, NOW + 5).is_err());
    let order = store.get_payment_order(1).unwrap();
    assert_eq!(order.status, PaymentStatus::Unpaid);
    assert_eq!(order.amount_paid, 0);
    assert_eq!(order.verified_time, None);

    // A successful transfer marks the order refunded.
    assert_eq!(store.refund_finish(1, payer, 400, true, NOW + 6), Ok(true));
    let order = store.get_payment_order(1).unwrap();
    assert_eq!(order.status, PaymentStatus::Refunded);
    assert_eq!(order.verified_time, Some(NOW + 6));

    // A refunded order cannot be refunded again.
    assert!(store.refund_precheck(1, payer).is_err());
    assert!(store.refund_finish(1, payer, 0, true, NOW + 7).is_err());
}

#[test]
fn paid_order_cannot_be_refunded() {
    let (mut store, payer) = store_with_order(100);
    store.confirm_begin(1, NOW).unwrap();
    store.confirm_finish(1, 100, NOW).unwrap();
    assert!(store.refund_precheck(1, payer).is_err());
}

#[test]
fn timed_out_order_can_still_be_refunded() {
    let (mut store, payer) = store_with_order(100);
    let late = NOW + PAYMENT_TIMEOUT_NANOS + 1;
    store.confirm_begin(1, late).unwrap();
    assert_eq!(store.get_payment_order(1).unwrap().status, PaymentStatus::TimedOut);
    assert_eq!(store.refund_finish(1, payer, 50, true, late + 1), Ok(true));
    assert_eq!(store.get_payment_order(1).unwrap().status, PaymentStatus::Refunded);
}

#[test]
fn deposit_addresses_are_distinct_per_order() {
    let payer = PrincipalId::new(42);
    let other = PrincipalId::new(43);
    let a = generate_order_subaccount(payer, 1);
    let b = generate_order_subaccount(payer, 2);
    let c = generate_order_subaccount(other, 1);
    assert_eq!(a.len(), 32);
    assert_ne!(a, b);
    assert_ne!(a, c);
    assert_ne!(b, c);
}

#[test]
fn limit_orders_pages_through_the_callers_orders() {
    let payer = PrincipalId::new(1);
    let other = PrincipalId::new(2);
    let mut store = PayStore::new();
    for i in 0..5u64 {
        let who = if i % 2 == 0 { payer } else { other };
        store.create_award_order(
            i + 1,
            who,
            "s".to_string(),
            "ICP".to_string(),
            100 + i,
            PaymentType::AwardPrice,
            NOW + i,
        );
    }
    let req = QueryCommonReq { page: 1, size: 2, sort: QuerySort::TimeAsc };
    let (total, has_more, page) = store.limit_orders(payer, &req);
    assert_eq!(total, 3);
    assert!(has_more);
    assert_eq!(page.len(), 2);
    assert_eq!(page[0].id, 1);
    assert_eq!(page[1].id, 3);

    let req2 = QueryCommonReq { page: 2, size: 2, sort: QuerySort::TimeAsc };
    let (_, has_more2, page2) = store.limit_orders(payer, &req2);
    assert!(!has_more2);
    assert_eq!(page2.len(), 1);
    assert_eq!(page2[0].id, 5);

    let desc = QueryCommonReq { page: 1, size: 10, sort: QuerySort::TimeDesc };
    let (_, _, newest_first) = store.limit_orders(payer, &desc);
    assert_eq!(newest_first.len(), 3);
    assert_eq!(newest_first[0].id, 5);
    assert_eq!(newest_first[2].id, 1);
}

#[test]
fn page_requests_are_clamped() {
    assert_eq!(check_page_size(0, 0), (1, 10));
    assert_eq!(check_page_size(3, 1000), (3, 100));
    assert_eq!(check_page_size(2, 25), (2, 25));
}

#[test]
fn terminal_states_absorb_every_operation() {
    // Paid stays paid.
    let (mut store, payer) = store_with_order(10);
    store.confirm_begin(1, NOW).unwrap();
    store.confirm_finish(1, 10, NOW).unwrap();
    let _ = store.confirm_begin(1, NOW + 1);
    let _ = store.confirm_finish(1, 0, NOW + 2);
    let _ = store.refund_finish(1, payer, 10, true, NOW + 3);
    assert_eq!(store.get_payment_order(1).unwrap().status, PaymentStatus::Paid);

    // Refunded stays refunded.
    let (mut store2, payer2) = store_with_order(10);
    store2.refund_finish(1, payer2, 10, true, NOW).unwrap();
    let _ = store2.confirm_begin(1, NOW + 1);
    let _ = store2.refund_finish(1, payer2, 10, true, NOW + 2);
    assert_eq!(store2.get_payment_order(1).unwrap().status, PaymentStatus::Refunded);

    // TimedOut never reopens for payment.
    let (mut store3, _) = store_with_order(10);
    store3.confirm_begin(1, NOW + PAYMENT_TIMEOUT_NANOS + 1).unwrap();
    let _ = store3.confirm_begin(1, NOW + PAYMENT_TIMEOUT_NANOS + 2);
    let _ = store3.confirm_finish(1, 10, NOW + PAYMENT_TIMEOUT_NANOS + 3);
    assert_eq!(store3.get_payment_order(1).unwrap().status, PaymentStatus::TimedOut);
}
