use edge_database::error::{DbError, InvalidInput};
use edge_database::model::{
    CashShift, CloseCashShiftRequest, NewCashShift, NewPayment, PaidInOutRequest,
};
use edge_database::payment::cash_shift::{
    check_no_open_shift, decide_close, opening_float_movement, paid_in_out_movement,
};
use edge_database::payment::tender::{
    allocation_target, cash_movement_for, sum_reversals, validate_forward, validate_reversal,
};

fn base_payment(id: &str, amount_paise: i64) -> NewPayment {
    NewPayment {
        id: id.to_string(),
        outlet_id: "outlet-1".to_string(),
        order_id: "order-1".to_string(),
        cash_shift_id: None,
        method: "CASH".to_string(),
        status: "CAPTURED".to_string(),
        amount_paise,
        tendered_paise: Some(amount_paise.max(0)),
        change_paise: Some(0),
        reference: None,
        external_id: None,
        reverses_payment_id: None,
        captured_at: Some("2026-08-14T10:00:00Z".to_string()),
        created_by_user_id: "user-1".to_string(),
        created_at: "2026-08-14T10:00:00Z".to_string(),
        updated_at: "2026-08-14T10:00:00Z".to_string(),
    }
}

fn reversal_of(id: &str, original: &str, amount_paise: i64) -> NewPayment {
    let mut p = base_payment(id, amount_paise);
    p.reverses_payment_id = Some(original.to_string());
    p
}

#[test]
fn a_forward_payment_with_zero_amount_is_rejected() {
    let err = validate_forward(&base_payment("p-1", 0), None, None, 0)
        .expect_err("a zero forward tender must be rejected");
    assert!(matches!(err, DbError::ForwardPaymentAmountNotPositive { amount_paise: 0 }));
}

#[test]
fn a_forward_payment_with_negative_amount_is_rejected() {
    let err = validate_forward(&base_payment("p-1", -500), None, None, 0)
        .expect_err("a negative forward tender must be rejected");
    assert!(matches!(err, DbError::ForwardPaymentAmountNotPositive { amount_paise: -500 }));
}

#[test]
fn a_reversal_with_positive_amount_is_rejected() {
    let reversal = reversal_of("p-2", "p-1", 500);
    let err = validate_reversal(&reversal, "p-1", Some(1000), &vec![])
        .expect_err("a positive reversal must be rejected");
    assert!(matches!(err, DbError::ReversalAmountNotNonPositive { .. }));
}

#[test]
fn a_reversal_without_a_real_original_is_rejected() {
    let reversal = reversal_of("p-2", "does-not-exist", -500);
    let err = validate_reversal(&reversal, "does-not-exist", None, &vec![])
        .expect_err("a reversal of a missing payment must be rejected");
    assert!(matches!(err, DbError::ReversedPaymentNotFound { .. }));
}

#[test]
fn a_full_reversal_then_settles_to_zero_and_a_second_reversal_is_rejected() {
    let mut posted: Vec<i64> = vec![];
    let full = reversal_of("p-2", "p-1", -1000);
    validate_reversal(&full, "p-1", Some(1000), &posted).expect("full reversal");
    posted.push(full.amount_paise);
    let second = reversal_of("p-3", "p-1", -1);
    let err = validate_reversal(&second, "p-1", Some(1000), &posted)
        .expect_err("reversing an already-fully-reversed payment must be rejected");
    assert!(matches!(err, DbError::PaymentAlreadyFullyReversed { .. }));
}

#[test]
fn a_reversal_larger_than_what_remains_is_rejected() {
    let over = reversal_of("p-2", "p-1", -1001);
    let err = validate_reversal(&over, "p-1", Some(1000), &vec![])
        .expect_err("over-refund must be rejected");
    match err {
        DbError::ReversalExceedsRemaining { requested_paise, remaining_paise, .. } => {
            assert_eq!(requested_paise, 1001);
            assert_eq!(remaining_paise, 1000);
        }
        other => panic!("expected ReversalExceedsRemaining, got {other:?}"),
    }
}

#[test]
fn a_partial_then_a_matching_second_reversal_settles_exactly_to_zero() {
    let mut posted: Vec<i64> = vec![];
    let r1 = reversal_of("p-2", "p-1", -400);
    validate_reversal(&r1, "p-1", Some(1000), &posted).expect("partial reversal 1");
    posted.push(r1.amount_paise);
    let r2 = reversal_of("p-3", "p-1", -600);
    validate_reversal(&r2, "p-1", Some(1000), &posted).expect("partial reversal 2 settles to zero");
    posted.push(r2.amount_paise);
    assert_eq!(1000 + sum_reversals(&posted), 0);
    let r3 = reversal_of("p-4", "p-1", -1);
    let err = validate_reversal(&r3, "p-1", Some(1000), &posted)
        .expect_err("a third reversal after settling to zero must be rejected");
    assert!(matches!(err, DbError::PaymentAlreadyFullyReversed { .. }));
}

#[test]
fn a_cash_payment_tied_to_a_shift_posts_a_cash_sale_movement() {
    let mut p = base_payment("p-1", 1500);
    p.cash_shift_id = Some("shift-1".to_string());
    let movement = cash_movement_for(&p, "m-1")
        .expect("a CASH payment on an open shift must post a movement");
    assert_eq!(movement.kind, "CASH_SALE");
    assert_eq!(movement.amount_paise, 1500);
    assert_eq!(movement.cash_shift_id, "shift-1");
    assert_eq!(movement.id, "m-1");
    assert_eq!(movement.payment_id, None, "stamped once the payment row exists");
}

#[test]
fn a_cash_refund_posts_a_cash_refund_movement() {
    let mut p = reversal_of("p-2", "p-1", -700);
    p.cash_shift_id = Some("shift-1".to_string());
    let movement = cash_movement_for(&p, "m-2").expect("movement");
    assert_eq!(movement.kind, "CASH_REFUND");
    assert_eq!(movement.amount_paise, -700);
}

#[test]
fn a_non_cash_payment_posts_no_movement() {
    let mut p = base_payment("p-1", 1500);
    p.method = "UPI".to_string();
    p.tendered_paise = None;
    p.change_paise = None;
    p.cash_shift_id = Some("shift-1".to_string());
    assert!(cash_movement_for(&p, "m-1").is_none());
    let unshifted = base_payment("p-2", 1500);
    assert!(cash_movement_for(&unshifted, "m-2").is_none());
}

#[test]
fn a_forward_tender_exceeding_remaining_due_is_rejected_at_the_edge() {
    validate_forward(&base_payment("p-1", 1000), Some("invoice-1"), Some(1000), 0)
        .expect("first tender settles the invoice exactly");
    let err = validate_forward(&base_payment("p-2", 1), Some("invoice-1"), Some(1000), 1000)
        .expect_err("a tender against an already fully-settled invoice must be rejected");
    match err {
        DbError::ForwardPaymentExceedsRemainingDue { invoice_id, requested_paise, remaining_paise } => {
            assert_eq!(invoice_id, "invoice-1");
            assert_eq!(requested_paise, 1);
            assert_eq!(remaining_paise, 0);
        }
        other => panic!("expected ForwardPaymentExceedsRemainingDue, got {other:?}"),
    }
}

#[test]
fn split_tenders_summing_exactly_to_the_total_all_succeed() {
    let mut settled = 0;
    for (id, amount) in [("p-1", 500), ("p-2", 300), ("p-3", 200)] {
        validate_forward(&base_payment(id, amount), Some("invoice-1"), Some(1000), settled)
            .expect("split tender");
        settled += amount;
    }
    assert_eq!(settled, 1000);
    let err = validate_forward(&base_payment("p-4", 1), Some("invoice-1"), Some(1000), settled)
        .expect_err("a tender against a just-settled invoice must be rejected");
    assert!(matches!(err, DbError::ForwardPaymentExceedsRemainingDue { .. }));
}

#[test]
fn a_reversal_restores_headroom_and_permits_re_tender() {
    let mut settled = 0;
    validate_forward(&base_payment("p-1", 1000), Some("invoice-1"), Some(1000), settled)
        .expect("original tender settles the bill");
    settled += 1000;
    let blocked = validate_forward(&base_payment("p-2", 1000), Some("invoice-1"), Some(1000), settled)
        .expect_err("a second full tender before any refund must be rejected");
    assert!(matches!(blocked, DbError::ForwardPaymentExceedsRemainingDue { .. }));

    let refund = reversal_of("p-3", "p-1", -1000);
    validate_reversal(&refund, "p-1", Some(1000), &vec![]).expect("full refund");
    let target = allocation_target(&refund, None, Some("invoice-1".to_string()));
    assert_eq!(target.as_deref(), Some("invoice-1"), "a refund is allocated to its original's invoice");
    settled += refund.amount_paise;
    assert_eq!(settled, 0);

    validate_forward(&base_payment("p-4", 1000), Some("invoice-1"), Some(1000), settled)
        .expect("re-tender after a full refund must succeed");
}

#[test]
fn a_forward_tender_against_a_nonexistent_invoice_is_rejected() {
    let err = validate_forward(&base_payment("p-1", 1000), Some("no-such-invoice"), None, 0)
        .expect_err("a payment against a nonexistent invoice must be rejected");
    assert!(matches!(err, DbError::InvoiceNotFoundForPayment { .. }));
}

#[test]
fn a_forward_tender_with_no_invoice_id_skips_the_remaining_due_check() {
    validate_forward(&base_payment("p-1", 5_000_000), None, None, 0)
        .expect("a payment with no invoice_id is not checked against any remaining due");
    let target = allocation_target(&base_payment("p-1", 5_000_000), None, None);
    assert_eq!(target, None);
}

#[test]
fn a_forward_tender_is_allocated_to_the_invoice_it_names() {
    let target = allocation_target(&base_payment("p-1", 10), Some("inv-7"), Some("ignored".to_string()));
    assert_eq!(target.as_deref(), Some("inv-7"));
}

// ----------------------------------------------------------- cash shift ----

fn new_shift(id: &str) -> NewCashShift {
    NewCashShift {
        id: id.to_string(),
        outlet_id: "outlet-1".to_string(),
        device_id: "device-1".to_string(),
        cashier_user_id: "user-1".to_string(),
        opened_at: "2026-08-14T09:00:00Z".to_string(),
        opening_cash_paise: 500_000,
        business_date: "2026-08-14".to_string(),
        created_at: "2026-08-14T09:00:00Z".to_string(),
        updated_at: "2026-08-14T09:00:00Z".to_string(),
    }
}

fn stored_shift(n: &NewCashShift) -> CashShift {
    CashShift {
        id: n.id.clone(),
        outlet_id: n.outlet_id.clone(),
        device_id: n.device_id.clone(),
        cashier_user_id: n.cashier_user_id.clone(),
        status: "OPEN".to_string(),
        opened_at: n.opened_at.clone(),
        opening_cash_paise: n.opening_cash_paise,
        closed_at: None,
        expected_cash_paise: None,
        actual_cash_paise: None,
        variance_paise: None,
        variance_reason: None,
        business_date: n.business_date.clone(),
        created_at: n.created_at.clone(),
        updated_at: n.updated_at.clone(),
        version: 1,
        sync_status: "PENDING".to_string(),
    }
}

fn close_req(actual: i64, reason: Option<&str>) -> CloseCashShiftRequest {
    CloseCashShiftRequest {
        cash_shift_id: "shift-1".to_string(),
        actual_cash_paise: actual,
        closed_at: "2026-08-14T18:00:00Z".to_string(),
        updated_at: "2026-08-14T18:00:00Z".to_string(),
        variance_reason: reason.map(str::to_string),
    }
}

fn open() -> Option<String> {
    Some("OPEN".to_string())
}

#[test]
fn opening_a_second_shift_for_the_same_cashier_device_is_rejected() {
    check_no_open_shift(&new_shift("shift-1"), None).expect("first open");
    let err = check_no_open_shift(&new_shift("shift-2"), Some("shift-1".to_string()))
        .expect_err("a second open shift for the same cashier/device must be rejected");
    assert!(matches!(err, DbError::CashShiftAlreadyOpen { .. }));
}

#[test]
fn the_opening_float_is_the_first_movement() {
    let n = new_shift("shift-1");
    let m = opening_float_movement(&stored_shift(&n), &n, "mv-1");
    assert_eq!(m.kind, "OPENING_FLOAT");
    assert_eq!(m.amount_paise, 500_000);
    assert_eq!(m.cash_shift_id, "shift-1");
    assert_eq!(m.created_by_user_id, "user-1");
}

#[test]
fn zero_variance_close_needs_no_reason() {
    let c = decide_close(&close_req(500_000, None), open(), 500_000).expect("zero-variance close");
    assert_eq!(c.variance_paise, 0);
    assert_eq!(c.variance_reason, None);
}

#[test]
fn non_zero_variance_close_without_a_reason_is_rejected() {
    let err = decide_close(&close_req(505_000, None), open(), 500_000)
        .expect_err("a non-zero variance close without a reason must be rejected");
    match err {
        DbError::CashVarianceReasonRequired { variance_paise, .. } => assert_eq!(variance_paise, 5_000),
        other => panic!("expected CashVarianceReasonRequired, got {other:?}"),
    }
}

#[test]
fn whitespace_only_reason_is_treated_as_blank() {
    let err = decide_close(&close_req(490_000, Some("   ")), open(), 500_000)
        .expect_err("whitespace-only reason must be rejected as blank");
    assert!(matches!(err, DbError::CashVarianceReasonRequired { .. }));
}

#[test]
fn non_zero_variance_close_with_a_reason_succeeds() {
    let c = decide_close(
        &close_req(490_000, Some("counted twice, till was short a hundred")),
        open(),
        500_000,
    )
    .expect("close with reason");
    assert_eq!(c.variance_paise, -10_000);
    assert_eq!(c.variance_reason.as_deref(), Some("counted twice, till was short a hundred"));
}

#[test]
fn a_zero_variance_close_drops_a_supplied_reason() {
    let c = decide_close(&close_req(500_000, Some("none needed")), open(), 500_000).expect("close");
    assert_eq!(c.variance_reason, None);
}

#[test]
fn closing_an_already_closed_shift_is_rejected() {
    decide_close(&close_req(500_000, None), open(), 500_000).expect("first close");
    let err = decide_close(&close_req(500_000, None), Some("CLOSED".to_string()), 500_000)
        .expect_err("closing an already-closed shift must be rejected");
    assert!(matches!(err, DbError::CashShiftNotOpen { .. }));
    let missing = decide_close(&close_req(500_000, None), None, 0).expect_err("unknown shift");
    match missing {
        DbError::CashShiftNotOpen { status, .. } => assert_eq!(status, "NOT_FOUND"),
        other => panic!("expected CashShiftNotOpen, got {other:?}"),
    }
}

fn paid(id: &str, kind: &str, amount: i64, reason: &str) -> PaidInOutRequest {
    PaidInOutRequest {
        id: id.to_string(),
        cash_shift_id: "shift-1".to_string(),
        kind: kind.to_string(),
        amount_paise: amount,
        reason: reason.to_string(),
        created_by_user_id: "user-1".to_string(),
        created_at: "2026-08-14T12:00:00Z".to_string(),
    }
}

#[test]
fn paid_out_requires_a_reason_and_shrinks_expected_cash() {
    let blank_err = paid_in_out_movement(&paid("pio-1", "PAID_OUT", 50_000, "  "), open())
        .expect_err("blank reason must be rejected");
    assert!(matches!(blank_err, DbError::CashMovementReasonRequired { .. }));
    let movement = paid_in_out_movement(
        &paid("pio-2", "PAID_OUT", 50_000, "vegetable supplier, cash on delivery"),
        open(),
    )
    .expect("paid out with a reason");
    assert_eq!(movement.amount_paise, -50_000);
    assert_eq!(500_000 + movement.amount_paise, 500_000 - 50_000);
}

#[test]
fn paid_in_is_positive_whatever_the_sign_supplied() {
    let m = paid_in_out_movement(&paid("pio-3", "PAID_IN", -2_000, "float top-up"), open()).expect("paid in");
    assert_eq!(m.amount_paise, 2_000);
    let out = paid_in_out_movement(&paid("pio-4", "PAID_OUT", -2_000, "change run"), open()).expect("paid out");
    assert_eq!(out.amount_paise, -2_000);
}

#[test]
fn paid_in_out_rejects_other_kinds_and_closed_shifts() {
    assert!(matches!(
        paid_in_out_movement(&paid("pio-5", "CASH_SALE", 10, "x"), open()),
        Err(DbError::InvalidInput(InvalidInput::PaidInOutKind(_)))
    ));
    assert!(matches!(
        paid_in_out_movement(&paid("pio-6", "PAID_IN", 10, "x"), Some("CLOSED".to_string())),
        Err(DbError::CashShiftNotOpen { .. })
    ));
    assert!(matches!(
        paid_in_out_movement(&paid("pio-7", "PAID_IN", 10, "x"), None),
        Err(DbError::CashShiftNotOpen { .. })
    ));
}
