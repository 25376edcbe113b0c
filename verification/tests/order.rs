use edge_database::error::{DbError, InvalidInput};
use edge_database::model::OrderItemModifier;
use edge_database::order::{
    block_letters, bool_to_i64, compute_line_total_paise, compute_order_total_paise,
    format_order_display_number, i64_to_bool, next_display_number, order_created_day, is_legal_kot_transition, next_kot_sequence,
    order_is_kitchen_ready, require_amendable_for_item_changes, require_draft_order,
    require_draft_order_for_confirm, require_sendable_order,
};

#[test]
fn formatter_never_repeats_past_the_old_wrap_point() {
    let old_wrap_point = 26 * 999 + 1;
    let mut seen = std::collections::HashSet::new();
    for i in 1..=(old_wrap_point + 5_000) {
        let s = format_order_display_number(i);
        assert!(seen.insert(s.clone()), "display number {s:?} (index {i}) repeated an earlier index");
    }
    let at_index_1 = format_order_display_number(1);
    let at_old_wrap = format_order_display_number(old_wrap_point);
    assert_eq!(at_index_1, "#A1");
    assert_ne!(at_old_wrap, at_index_1);
    assert_eq!(at_old_wrap, "#AA1");
}

#[test]
fn formatter_is_unique_across_many_wrap_boundaries() {
    let mut seen = std::collections::HashSet::new();
    for i in 1..=(78 * 999 + 100) {
        let s = format_order_display_number(i);
        assert!(seen.insert(s), "duplicate display number produced at index {i}");
    }
}

#[test]
fn block_letters_never_collide() {
    let mut seen = std::collections::HashSet::new();
    for block in 0..3000 {
        let letters = block_letters(block);
        assert!(seen.insert(letters), "block_letters({block}) collided with an earlier block");
    }
}

#[test]
fn display_numbers_follow_the_spreadsheet_scheme() {
    assert_eq!(format_order_display_number(999), "#A999");
    assert_eq!(format_order_display_number(1000), "#B1");
    assert_eq!(format_order_display_number(25 * 999 + 1), "#Z1");
    assert_eq!(block_letters(0), "A");
    assert_eq!(block_letters(25), "Z");
    assert_eq!(block_letters(26), "AA");
    assert_eq!(block_letters(27), "AB");
    assert_eq!(block_letters(701), "ZZ");
    assert_eq!(block_letters(702), "AAA");
    assert_eq!(block_letters(-1), "");
}

#[test]
fn a_non_positive_index_formats_as_the_truncating_arithmetic_gives() {
    assert_eq!(format_order_display_number(0), "#A0");
    assert_eq!(format_order_display_number(-998), "#1");
}

#[test]
fn booleans_are_stored_as_one_and_zero() {
    assert_eq!(bool_to_i64(true), 1);
    assert_eq!(bool_to_i64(false), 0);
    assert!(i64_to_bool(7));
    assert!(!i64_to_bool(0));
}

fn row(status: &str) -> Option<(String, String)> {
    Some(("outlet-1".to_string(), status.to_string()))
}

#[test]
fn amendment_and_confirmation_are_legal_only_while_draft() {
    assert_eq!(require_draft_order("order-1", row("DRAFT")).unwrap(), "outlet-1");
    assert!(matches!(
        require_draft_order("order-1", row("CONFIRMED")),
        Err(DbError::OrderNotAmendable { .. })
    ));
    assert!(matches!(require_draft_order("order-1", None), Err(DbError::NotFound("order"))));
    assert_eq!(require_draft_order_for_confirm("order-1", row("DRAFT")).unwrap(), "outlet-1");
    assert!(matches!(
        require_draft_order_for_confirm("order-1", row("PAID")),
        Err(DbError::OrderNotConfirmable { .. })
    ));
}

#[test]
fn lines_may_change_until_the_kitchen_is_done() {
    for s in ["DRAFT", "CONFIRMED", "SENT_TO_KITCHEN", "PREPARING"] {
        assert!(require_amendable_for_item_changes("order-1", row(s)).is_ok(), "{s}");
    }
    for s in ["READY", "SERVED", "BILLED", "PAID", "CLOSED", "CANCELLED"] {
        match require_amendable_for_item_changes("order-1", row(s)) {
            Err(DbError::OrderNotAmendable { order_id, status }) => {
                assert_eq!(order_id, "order-1");
                assert_eq!(status, s);
            }
            other => panic!("{s}: expected OrderNotAmendable, got {other:?}"),
        }
    }
}

#[test]
fn sending_to_the_kitchen_needs_a_confirmed_active_order() {
    for s in ["CONFIRMED", "SENT_TO_KITCHEN", "PREPARING"] {
        assert!(require_sendable_order("order-1", row(s)).is_ok(), "{s}");
    }
    assert!(matches!(
        require_sendable_order("order-1", row("DRAFT")),
        Err(DbError::OrderNotSendableToKitchen { .. })
    ));
}

fn modifier(delta: i64) -> OrderItemModifier {
    OrderItemModifier {
        id: "m".to_string(),
        order_item_id: "oi-1".to_string(),
        modifier_id: "mod-1".to_string(),
        group_name: "Extras".to_string(),
        option_name: "Cheese".to_string(),
        price_delta_paise: delta,
        created_at: "2026-08-12T10:00:00Z".to_string(),
    }
}

#[test]
fn line_total_adds_modifier_deltas_before_multiplying() {
    assert_eq!(compute_line_total_paise(25_000, 2, &[modifier(3_000), modifier(-500)]), 55_000);
    assert_eq!(compute_line_total_paise(25_000, 3, &[]), 75_000);
    assert_eq!(compute_order_total_paise(55_000, 5_000, 2_500), 52_500);
}

#[test]
fn kitchen_tickets_only_move_forward() {
    assert!(is_legal_kot_transition("NEW", "ACKNOWLEDGED"));
    assert!(is_legal_kot_transition("NEW", "CANCELLED"));
    assert!(is_legal_kot_transition("ACKNOWLEDGED", "PREPARING"));
    assert!(is_legal_kot_transition("PREPARING", "READY"));
    assert!(is_legal_kot_transition("READY", "SERVED"));
    assert!(!is_legal_kot_transition("READY", "CANCELLED"));
    assert!(!is_legal_kot_transition("SERVED", "NEW"));
    assert!(!is_legal_kot_transition("PREPARING", "NEW"));
    assert!(!is_legal_kot_transition("CANCELLED", "NEW"));
    assert!(!is_legal_kot_transition("NEW", "READY"));
}

#[test]
fn ticket_sequence_and_readiness() {
    assert_eq!(next_kot_sequence(None), 1);
    assert_eq!(next_kot_sequence(Some(4)), 5);
    assert!(order_is_kitchen_ready(2, 0));
    assert!(!order_is_kitchen_ready(0, 0), "an order with no active ticket is not ready");
    assert!(!order_is_kitchen_ready(2, 1));
}

#[test]
fn the_created_day_is_the_first_ten_bytes() {
    assert_eq!(order_created_day("2026-06-01T09:30:00Z").unwrap(), "2026-06-01");
    assert_eq!(order_created_day("2026-06-01").unwrap(), "2026-06-01");
}

#[test]
fn a_created_at_too_short_for_a_day_is_refused() {
    assert!(matches!(
        order_created_day("2026-06"),
        Err(DbError::InvalidInput(InvalidInput::CreatedAtTooShort(ref s))) if s == "2026-06"
    ));
    // Byte 10 inside a multi-byte character is refused too.
    assert!(order_created_day("2026-06-0é").is_err());
}

#[test]
fn the_next_display_number_follows_the_day_count() {
    assert_eq!(next_display_number(0), "#A1");
    assert_eq!(next_display_number(999), "#B1");
    assert_eq!(next_display_number(25974), "#AA1");
}
