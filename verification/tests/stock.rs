use edge_database::stock::balance::current_stock_micro;
use edge_database::error::DbError;
use edge_database::stock::count::{
    count_adjustments, require_count_status, variance_line, StockCountLine,
};
use edge_database::stock::wastage::{wastage_quantity_applied, NewWastageEntry};

fn grams(n: i64) -> i64 {
    n * 1_000_000
}

fn count_line(item: &str, counted: i64, expected: i64) -> StockCountLine {
    StockCountLine {
        id: format!("line-{item}"),
        stock_count_id: "count-1".to_string(),
        inventory_item_id: item.to_string(),
        inventory_item_name: "Paneer".to_string(),
        dimension: "MASS".to_string(),
        counted_quantity_micro: counted,
        expected_quantity_micro: expected,
        note: None,
    }
}

#[test]
fn variance_matches_an_independently_computed_figure() {
    require_count_status("count-1", Some("COMPLETED".to_string()), "COMPLETED").expect("completed");
    let line = variance_line(&count_line("item-1", grams(4_750), grams(5_000)));
    assert_eq!(line.variance_quantity_micro, -grams(250), "hand-computed: 4750 - 5000 = -250 g");
    assert_eq!(line.variance_percentage_bps, Some(-500), "hand-computed: -250 / 5000 = -500 bps");
}

#[test]
fn a_zero_expected_quantity_reports_no_percentage() {
    let line = variance_line(&count_line("item-1", grams(200), 0));
    assert_eq!(line.variance_percentage_bps, None);
    assert_eq!(line.variance_quantity_micro, grams(200));
}

#[test]
fn a_negative_expected_quantity_divides_by_its_magnitude() {
    let line = variance_line(&count_line("item-1", grams(100), -grams(400)));
    assert_eq!(line.variance_quantity_micro, grams(500));
    assert_eq!(line.variance_percentage_bps, Some(12_500));
}

#[test]
fn a_report_over_an_open_count_is_rejected() {
    let err = require_count_status("count-1", Some("OPEN".to_string()), "COMPLETED")
        .expect_err("a report over a still-OPEN count must be rejected");
    assert!(matches!(err, DbError::StockCountNotOpen { .. }));
}

#[test]
fn open_add_line_and_complete_posts_a_count_adjustment_entry() {
    require_count_status("count-1", Some("OPEN".to_string()), "OPEN").expect("open count");
    let lines = vec![count_line("item-1", grams(4_750), 0)];
    let adjustments = count_adjustments(&lines);
    assert_eq!(adjustments, vec![(0, grams(4_750))], "counted - expected(0) = counted");
}

#[test]
fn a_zero_variance_line_posts_no_adjustment_entry() {
    let lines = vec![count_line("item-1", 0, 0)];
    assert!(count_adjustments(&lines).is_empty(), "a zero-variance line must post nothing");
}

#[test]
fn only_lines_with_a_variance_post_and_in_line_order() {
    let lines = vec![
        count_line("a", grams(5), grams(5)),
        count_line("b", grams(1), grams(3)),
        count_line("c", grams(9), grams(2)),
    ];
    assert_eq!(count_adjustments(&lines), vec![(1, -grams(2)), (2, grams(7))]);
}

#[test]
fn a_completed_count_rejects_a_further_line_write() {
    let err = require_count_status("count-1", Some("COMPLETED".to_string()), "OPEN")
        .expect_err("a completed count is immutable");
    assert!(matches!(err, DbError::StockCountNotOpen { .. }));
}

#[test]
fn completing_an_already_completed_count_is_rejected_not_a_silent_no_op() {
    let err = require_count_status("count-1", Some("COMPLETED".to_string()), "OPEN")
        .expect_err("completing twice must be rejected");
    match err {
        DbError::StockCountNotOpen { stock_count_id, status } => {
            assert_eq!(stock_count_id, "count-1");
            assert_eq!(status, "COMPLETED");
        }
        other => panic!("expected StockCountNotOpen, got {other:?}"),
    }
    assert!(matches!(
        require_count_status("count-9", None, "OPEN"),
        Err(DbError::NotFound("stock_count"))
    ));
}

fn sample_request() -> NewWastageEntry {
    NewWastageEntry {
        outlet_id: "outlet-1".to_string(),
        inventory_item_id: "item-1".to_string(),
        quantity_micro: grams(300),
        reason_code: "SPOILAGE".to_string(),
        note: None,
        occurred_at: "2026-08-20T10:00:00Z".to_string(),
        created_by_user_id: Some("user-1".to_string()),
    }
}

#[test]
fn wastage_writes_a_negative_consumption_entry() {
    let q = wastage_quantity_applied(&sample_request()).expect("record wastage");
    assert_eq!(q, -grams(300));
}

#[test]
fn a_non_positive_quantity_is_rejected_before_any_write() {
    let mut req = sample_request();
    req.quantity_micro = 0;
    let err = wastage_quantity_applied(&req).expect_err("zero wastage must be rejected");
    assert!(matches!(err, DbError::WastageQuantityNotPositive { .. }));
}

#[test]
fn a_blank_reason_code_is_rejected_before_any_write() {
    let mut req = sample_request();
    req.reason_code = "   ".to_string();
    let err = wastage_quantity_applied(&req).expect_err("blank reason must be rejected");
    assert!(matches!(err, DbError::WastageReasonRequired));
}

#[test]
fn an_unsealed_item_reads_its_whole_ledger() {
    assert_eq!(current_stock_micro(None, &vec![(1, 500_000), (2, -200_000)]), Some(300_000));
    assert_eq!(current_stock_micro(None, &vec![]), Some(0));
}

#[test]
fn a_sealed_item_adds_only_entries_past_the_mark() {
    // Entry 3 is already inside the seal's closing balance and is skipped.
    let ledger = vec![(3, 999), (6, 50), (7, -20)];
    assert_eq!(current_stock_micro(Some((1_000, 5)), &ledger), Some(1_030));
}

#[test]
fn a_late_entry_after_the_seal_is_counted_by_the_next_read() {
    // Sealed through entry 2 (100 + 50); entry 3 arrives afterwards carrying
    // the sealed day's date and still shows up in the balance.
    let ledger = vec![(1, 100), (2, 50), (3, -30)];
    let whole: i64 = ledger.iter().map(|e| e.1).sum();
    assert_eq!(current_stock_micro(Some((150, 2)), &ledger), Some(whole));
    assert_eq!(whole, 120);
}

#[test]
fn a_balance_past_64_bits_is_refused() {
    assert_eq!(current_stock_micro(Some((i64::MAX, 1)), &vec![(2, 1)]), None);
    assert_eq!(current_stock_micro(Some((i64::MIN, 1)), &vec![(2, -1)]), None);
    assert_eq!(current_stock_micro(Some((i64::MAX, 1)), &vec![(2, 1), (3, -1)]), Some(i64::MAX));
}
