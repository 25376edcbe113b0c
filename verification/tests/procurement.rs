use edge_database::error::{DbError, InvalidInput};
use edge_database::inventory::round_ratio_half_away_from_zero;
use edge_database::model::MAX_SAFE_INTEGER;
use edge_database::procurement::convert::{
    base_quantity_from_stored_rate, effective_rate, require_in_safe_range,
    require_non_negative_money, resolve_line_conversion, resolve_pack_rate, GrnGapReason,
    LineConversion, PackRate, PackSource, ReceivingItem, IDENTITY_PPM, MICRO,
};
use edge_database::procurement::cost::weighted_average_cost_paise;
use edge_database::procurement::movement::{
    outbound_quantity_applied, require_some_lines, valuation_paise,
};
use edge_database::procurement::numbering::format_grn_number;
use edge_database::procurement::receipt::{
    is_over_delivery, line_gaps, plan_grn_lines, receipt_gap_plan, require_lines, resolve_header_links,
    GapSubject, NewGoodsReceiptNote, NewGrnLine, PoMatch, ReceiptGap,
};

fn grams(n: i64) -> i64 {
    n * 1_000_000
}

fn kilograms(n: i64) -> i64 {
    n * 1_000_000_000
}

fn rice(yield_factor_ppm: i64) -> ReceivingItem {
    ReceivingItem {
        name: "Rice".to_string(),
        dimension: "MASS".to_string(),
        yield_factor_ppm,
    }
}

/// A supplier row declares the pack size.
fn supplier_pack(pack_size_micro: i64) -> PackRate {
    resolve_pack_rate(Some(pack_size_micro), None, None)
}

/// No supplier row; the unit map knows `kg`.
fn kg_from_unit_map() -> PackRate {
    resolve_pack_rate(None, Some(kilograms(1)), None)
}

/// Nothing converts the unit.
fn unconvertible() -> PackRate {
    resolve_pack_rate(None, None, None)
}

fn has_gap(c: &LineConversion, reason: GrnGapReason) -> bool {
    c.gaps.iter().any(|r| *r == reason)
}

#[test]
fn a_supplier_pack_size_converts_the_typed_figure_to_base_units() {
    let c = resolve_line_conversion(&supplier_pack(kilograms(50)), &rice(IDENTITY_PPM), "MASS", 2 * MICRO, 200_000)
        .expect("resolve");
    assert_eq!(c.pack_size_micro_applied, kilograms(50));
    assert_eq!(c.base_quantity_micro, kilograms(100));
    assert_eq!(c.line_total_paise, 400_000, "2 sacks at Rs 2000 each");
    assert_eq!(c.unit_cost_paise, 4);
    assert!(c.gaps.is_empty(), "a fully configured line records no gap");
}

#[test]
fn a_stored_line_recomputes_its_own_base_quantity() {
    let c = resolve_line_conversion(&supplier_pack(kilograms(50)), &rice(925_000), "MASS", 3 * MICRO, 200_000)
        .expect("resolve");
    assert_eq!(
        base_quantity_from_stored_rate(3 * MICRO, c.pack_size_micro_applied),
        Some(c.base_quantity_micro),
        "an auditor holding only the grn_line must reach the same number"
    );
}

#[test]
fn the_item_yield_factor_is_applied_during_receipt_conversion() {
    let c = resolve_line_conversion(&supplier_pack(kilograms(50)), &rice(925_000), "MASS", MICRO, 200_000)
        .expect("resolve");
    assert_eq!(c.pack_size_micro_applied, 46_250_000_000);
    assert_eq!(c.base_quantity_micro, grams(46_250));
}

#[test]
fn a_missing_supplier_item_falls_back_to_the_frozen_unit_map_and_gaps() {
    let c = resolve_line_conversion(&kg_from_unit_map(), &rice(IDENTITY_PPM), "MASS", 25 * MICRO, 4_000)
        .expect("resolve");
    assert_eq!(c.base_quantity_micro, kilograms(25));
    assert!(has_gap(&c, GrnGapReason::NoSupplierItem), "the fallback is recorded, not silent: {:?}", c.gaps);
    assert!(!has_gap(&c, GrnGapReason::NoUnitConversion));
}

#[test]
fn an_unconvertible_unit_records_what_was_typed_and_accepts_the_line() {
    let c = resolve_line_conversion(&unconvertible(), &rice(IDENTITY_PPM), "MASS", 7 * MICRO, 100)
        .expect("resolve");
    assert_eq!(c.pack_size_micro_applied, MICRO, "identity rate");
    assert_eq!(c.base_quantity_micro, 7 * MICRO, "recorded exactly as entered");
    assert!(has_gap(&c, GrnGapReason::NoUnitConversion));
}

#[test]
fn a_declared_dimension_that_disagrees_with_the_item_gaps_and_still_receives() {
    let c = resolve_line_conversion(&kg_from_unit_map(), &rice(IDENTITY_PPM), "VOLUME", MICRO, 100)
        .expect("resolve");
    assert!(has_gap(&c, GrnGapReason::DimensionMismatch), "{:?}", c.gaps);
    assert!(c.base_quantity_micro > 0);
}

#[test]
fn a_declared_dimension_that_agrees_produces_no_mismatch_gap() {
    let c = resolve_line_conversion(&kg_from_unit_map(), &rice(IDENTITY_PPM), "MASS", MICRO, 100)
        .expect("resolve");
    assert!(!has_gap(&c, GrnGapReason::DimensionMismatch));
}

#[test]
fn a_non_positive_or_undisplayable_quantity_is_a_typed_error_not_a_gap() {
    let p = kg_from_unit_map();
    let it = rice(IDENTITY_PPM);
    assert!(matches!(resolve_line_conversion(&p, &it, "MASS", 0, 100), Err(DbError::InvalidInput(_))));
    assert!(matches!(resolve_line_conversion(&p, &it, "MASS", -1, 100), Err(DbError::InvalidInput(_))));
    assert!(matches!(
        resolve_line_conversion(&p, &it, "MASS", MAX_SAFE_INTEGER + 1, 100),
        Err(DbError::InvalidInput(_))
    ));
}

#[test]
fn the_eight_gap_reasons_are_the_closed_set_the_migration_checks() {
    let all = [
        GrnGapReason::NoPurchaseOrder,
        GrnGapReason::PurchaseOrderNotFound,
        GrnGapReason::PoLineNotFound,
        GrnGapReason::QuantityExceedsOrdered,
        GrnGapReason::NoSupplierItem,
        GrnGapReason::NoUnitConversion,
        GrnGapReason::DimensionMismatch,
        GrnGapReason::SupplierNotFound,
    ];
    assert_eq!(all.len(), 8);
    let rendered: Vec<&str> = all.iter().map(|r| r.as_str()).collect();
    assert_eq!(
        rendered,
        vec![
            "NO_PURCHASE_ORDER",
            "PURCHASE_ORDER_NOT_FOUND",
            "PO_LINE_NOT_FOUND",
            "QUANTITY_EXCEEDS_ORDERED",
            "NO_SUPPLIER_ITEM",
            "NO_UNIT_CONVERSION",
            "DIMENSION_MISMATCH",
            "SUPPLIER_NOT_FOUND",
        ]
    );
}

#[test]
fn a_negative_price_is_a_typed_error() {
    let r = resolve_line_conversion(&kg_from_unit_map(), &rice(IDENTITY_PPM), "MASS", MICRO, -5);
    assert!(matches!(
        r,
        Err(DbError::InvalidInput(InvalidInput::NegativeMoney { field: "purchase_price_paise", value: -5 }))
    ));
}

#[test]
fn a_conversion_that_rounds_to_nothing_falls_back_to_the_typed_figure() {
    // One tiny pack of 1 micro-unit at a 10% yield: the rate rounds to zero.
    let c = resolve_line_conversion(&supplier_pack(1), &rice(100_000), "MASS", 3 * MICRO, 0)
        .expect("resolve");
    assert_eq!(c.rejected, Some((0, 0)));
    assert_eq!(c.pack_size_micro_applied, MICRO);
    assert_eq!(c.base_quantity_micro, 3 * MICRO);
    assert_eq!(c.gaps, vec![GrnGapReason::NoUnitConversion]);
}

#[test]
fn gaps_come_out_distinct_and_in_declaration_order() {
    let c = resolve_line_conversion(&unconvertible(), &rice(IDENTITY_PPM), "VOLUME", MICRO, 0)
        .expect("resolve");
    assert_eq!(
        c.gaps,
        vec![
            GrnGapReason::NoSupplierItem,
            GrnGapReason::NoUnitConversion,
            GrnGapReason::DimensionMismatch
        ]
    );
}

#[test]
fn the_pack_rate_falls_back_in_order() {
    assert_eq!(resolve_pack_rate(Some(7), Some(9), Some((1, 2))).source, PackSource::SupplierItem);
    assert_eq!(resolve_pack_rate(None, Some(9), Some((1, 2))).num, 9);
    let item_conv = resolve_pack_rate(None, None, Some((3, 2)));
    assert_eq!((item_conv.num, item_conv.den, item_conv.source), (3, 2, PackSource::ItemConversion));
    assert_eq!(resolve_pack_rate(None, None, Some((0, 2))).source, PackSource::Unconverted);
    assert_eq!(resolve_pack_rate(None, None, Some((3, 0))).num, MICRO);
}

#[test]
fn effective_rate_folds_the_yield_and_rounds_half_away_from_zero() {
    let p = PackRate { num: 3, den: 2, source: PackSource::ItemConversion };
    // 3/2 x 1.0 = 1.5 -> 2
    assert_eq!(effective_rate(&p, IDENTITY_PPM), Some(2));
    let whole = PackRate { num: 1_000, den: 1, source: PackSource::SupplierItem };
    assert_eq!(effective_rate(&whole, IDENTITY_PPM), Some(1_000));
    assert_eq!(effective_rate(&whole, 500_000), Some(500));
}

#[test]
fn rounding_is_half_away_from_zero_on_both_signs() {
    assert_eq!(round_ratio_half_away_from_zero(3, 2), 2);
    assert_eq!(round_ratio_half_away_from_zero(-3, 2), -2);
    assert_eq!(round_ratio_half_away_from_zero(5, 4), 1);
    assert_eq!(round_ratio_half_away_from_zero(-5, 4), -1);
    assert_eq!(round_ratio_half_away_from_zero(7, 1), 7);
}

#[test]
fn range_checks_name_the_field() {
    assert!(require_in_safe_range(1, "q").is_ok());
    assert!(matches!(
        require_in_safe_range(MAX_SAFE_INTEGER + 1, "q"),
        Err(DbError::InvalidInput(InvalidInput::PastSafeInteger { field: "q", .. }))
    ));
    assert!(require_non_negative_money(0, "m").is_ok());
    assert!(matches!(
        require_non_negative_money(-1, "m"),
        Err(DbError::InvalidInput(InvalidInput::NegativeMoney { field: "m", value: -1 }))
    ));
}

// ------------------------------------------------------------ numbering ----

#[test]
fn the_number_embeds_the_business_date_the_counter_resets_on() {
    let today = format_grn_number("2026-08-29", 1);
    let tomorrow = format_grn_number("2026-08-30", 1);
    assert_eq!(today, "GRN/20260829/0001");
    assert_eq!(tomorrow, "GRN/20260830/0001");
    assert_ne!(today, tomorrow);
}

#[test]
fn the_ordinal_grows_rather_than_truncating_past_the_pad_width() {
    assert_eq!(format_grn_number("2026-08-29", 9999), "GRN/20260829/9999");
    assert_eq!(format_grn_number("2026-08-29", 10_000), "GRN/20260829/10000");
}

#[test]
fn a_negative_ordinal_pads_like_the_standard_formatter() {
    assert_eq!(format_grn_number("2026-08-29", -5), format!("GRN/20260829/{:04}", -5));
    assert_eq!(format_grn_number("x", 0), "GRN//0000");
}

// ----------------------------------------------------------------- cost ----

#[test]
fn two_receipts_at_different_prices_match_an_independently_computed_average() {
    let independent_numerator: i128 = 100_000 * 4 + 50_000 * 5;
    let independent_denominator: i128 = 100_000 + 50_000;
    let independent = independent_numerator / independent_denominator;
    assert_eq!(independent, 4);
    let total_quantity = kilograms(100) + kilograms(50);
    let total_value = 400_000 + 250_000;
    let actual = weighted_average_cost_paise(total_quantity, total_value)
        .expect("two costed receipts must produce an average");
    assert_eq!(actual as i128, independent);
}

#[test]
fn the_average_rounds_half_away_from_zero_exactly_once() {
    let actual = weighted_average_cost_paise(grams(1) + grams(1), 1 + 2).expect("average");
    assert_eq!(actual, 2, "1.5 rounds away from zero, never truncates to 1");
}

#[test]
fn sql_side_integer_division_would_have_biased_the_average_downward() {
    let truncating = (grams(1) * 1 + grams(1) * 2) / (grams(1) + grams(1));
    assert_eq!(truncating, 1, "this is the wrong answer SQL would give");
    assert_eq!(weighted_average_cost_paise(grams(2), 3).expect("average"), 2);
}

#[test]
fn an_item_with_no_costed_receipt_has_no_average_rather_than_zero() {
    assert_eq!(weighted_average_cost_paise(0, 0), None);
}

// ------------------------------------------------------------- movement ----

#[test]
fn an_outbound_line_is_valued_at_the_stated_price_else_the_average_else_zero() {
    assert_eq!(valuation_paise(Some(12), Some(99)).unwrap(), 12);
    assert_eq!(valuation_paise(None, Some(99)).unwrap(), 99);
    assert_eq!(valuation_paise(None, None).unwrap(), 0);
    assert!(matches!(
        valuation_paise(Some(-1), Some(99)),
        Err(DbError::InvalidInput(InvalidInput::UnitCostOutOfRange { value: -1 }))
    ));
    assert!(valuation_paise(Some(MAX_SAFE_INTEGER + 1), None).is_err());
}

#[test]
fn outbound_movements_post_negative_quantities() {
    assert_eq!(outbound_quantity_applied(grams(300)), -grams(300));
    assert!(require_some_lines(0, "purchase_return").is_err());
    assert!(require_some_lines(2, "purchase_return").is_ok());
}

// -------------------------------------------------------------- receipt ----

fn receipt(supplier: Option<&str>, po: Option<&str>, lines: usize) -> NewGoodsReceiptNote {
    NewGoodsReceiptNote {
        id: "grn-1".to_string(),
        outlet_id: "outlet-1".to_string(),
        purchase_order_id: po.map(str::to_string),
        supplier_id: supplier.map(str::to_string),
        delivery_note_ref: None,
        received_at: "2026-08-29T10:00:00Z".to_string(),
        received_by_user_id: "user-1".to_string(),
        notes: None,
        lines: (0..lines)
            .map(|_| NewGrnLine {
                inventory_item_id: "item-rice".to_string(),
                entered_purchase_unit: "SACK".to_string(),
                entered_quantity_micro: MICRO,
                quantity_dimension: "MASS".to_string(),
                purchase_price_paise: 100,
                purchase_order_line_id: None,
                batch_code: None,
                expiry_date: None,
            })
            .collect(),
    }
}

#[test]
fn a_receipt_with_no_lines_is_refused() {
    assert!(matches!(
        require_lines(&receipt(None, None, 0)),
        Err(DbError::InvalidInput(InvalidInput::NoLines { .. }))
    ));
    assert!(require_lines(&receipt(None, None, 1)).is_ok());
}

#[test]
fn a_receipt_never_blocks_on_its_header_links() {
    let none = resolve_header_links(&receipt(None, None, 1), false, false);
    assert_eq!(none.gaps, vec![GrnGapReason::NoPurchaseOrder]);
    assert_eq!(none.stored_supplier_id, None);

    let dangling = resolve_header_links(&receipt(Some("sup-x"), Some("po-x"), 1), false, false);
    assert_eq!(
        dangling.gaps,
        vec![GrnGapReason::SupplierNotFound, GrnGapReason::PurchaseOrderNotFound]
    );
    assert_eq!(dangling.stored_supplier_id, None);
    assert_eq!(dangling.stored_purchase_order_id, None);

    let known = resolve_header_links(&receipt(Some("sup-1"), Some("po-1"), 1), true, true);
    assert!(known.gaps.is_empty());
    assert_eq!(known.stored_supplier_id.as_deref(), Some("sup-1"));
    assert_eq!(known.stored_purchase_order_id.as_deref(), Some("po-1"));
}

#[test]
fn over_delivery_counts_what_this_outlet_already_received() {
    assert!(!is_over_delivery(100, 40, 60));
    assert!(is_over_delivery(100, 41, 60));
    assert!(!is_over_delivery(0, 41, 60), "an order line with nothing ordered is never over-delivered");
    assert!(is_over_delivery(100, i64::MAX, 1), "the running sum saturates rather than wrapping");
}

#[test]
fn line_gaps_append_the_matching_outcome() {
    let conv = vec![GrnGapReason::NoSupplierItem];
    assert_eq!(line_gaps(&conv, PoMatch::NoOrder), conv);
    assert_eq!(
        line_gaps(&conv, PoMatch::LineNotFound),
        vec![GrnGapReason::NoSupplierItem, GrnGapReason::PoLineNotFound]
    );
    assert_eq!(
        line_gaps(&conv, PoMatch::Matched { over_delivered: true }),
        vec![GrnGapReason::NoSupplierItem, GrnGapReason::QuantityExceedsOrdered]
    );
    assert_eq!(line_gaps(&conv, PoMatch::Matched { over_delivered: false }), conv);
}

#[test]
fn a_receipt_records_header_then_unstocked_then_line_gaps() {
    let header = vec![GrnGapReason::SupplierNotFound, GrnGapReason::NoPurchaseOrder];
    let lines = vec![
        Some((vec![GrnGapReason::NoSupplierItem], PoMatch::NoOrder)),
        None,
        Some((vec![], PoMatch::LineNotFound)),
        None,
    ];
    let plan = receipt_gap_plan(&header, &lines);
    assert_eq!(
        plan,
        vec![
            ReceiptGap { subject: GapSubject::Header, reason: GrnGapReason::SupplierNotFound },
            ReceiptGap { subject: GapSubject::Header, reason: GrnGapReason::NoPurchaseOrder },
            ReceiptGap { subject: GapSubject::UnstockedLine(1), reason: GrnGapReason::NoUnitConversion },
            ReceiptGap { subject: GapSubject::UnstockedLine(3), reason: GrnGapReason::NoUnitConversion },
            ReceiptGap { subject: GapSubject::Line(0), reason: GrnGapReason::NoSupplierItem },
            ReceiptGap { subject: GapSubject::Line(2), reason: GrnGapReason::PoLineNotFound },
        ]
    );
}

#[test]
fn stocked_lines_are_recorded_under_their_submitted_position() {
    assert_eq!(plan_grn_lines(&vec![true, false, true]), vec![(0, 1), (2, 3)]);
    assert_eq!(plan_grn_lines(&vec![false, false]), vec![]);
    assert_eq!(plan_grn_lines(&vec![true]), vec![(0, 1)]);
}
