use edge_database::error::DbError;
use edge_database::model::{ComplianceVersion, TaxProfile, TaxRule};
use edge_database::tax::domain::{Line, PricingMode, ResolvedRate, TaxComponent};
use edge_database::tax::engine::compute_invoice;
use edge_database::tax::resolve::{
    parse_utc, resolve_compliance_version, resolve_rates, resolve_tax_profile, UtcInstant,
};
use edge_database::tax::rounding::{
    largest_remainder_split, round_half_up_div, round_to_nearest_rupee,
};
use edge_database::tax::snapshot::{build_tax_snapshot, build_tax_snapshots, TaxSnapshot};

fn gst_restaurant_5() -> Vec<ResolvedRate> {
    vec![
        ResolvedRate { component: TaxComponent::Cgst, rate_bps: 250 },
        ResolvedRate { component: TaxComponent::Sgst, rate_bps: 250 },
    ]
}

fn line(
    id: &str,
    quantity: i64,
    unit_price_paise: i64,
    discount: i64,
    profile: &str,
    mode: PricingMode,
    rates: Vec<ResolvedRate>,
) -> Line {
    Line {
        order_item_id: id.into(),
        description: "line".into(),
        hsn_sac: None,
        quantity,
        unit_price_paise,
        discount_per_unit_paise: discount,
        tax_profile_id: profile.into(),
        pricing_mode: mode,
        rates,
    }
}

fn now() -> UtcInstant {
    UtcInstant { secs: chrono::Utc::now().timestamp(), nanos: 0 }
}

fn just_before(t: UtcInstant) -> UtcInstant {
    if t.nanos == 0 {
        UtcInstant { secs: t.secs - 1, nanos: 999_999_999 }
    } else {
        UtcInstant { secs: t.secs, nanos: t.nanos - 1 }
    }
}

#[test]
fn exclusive_pricing_worked_example() {
    let lines = vec![
        Line {
            order_item_id: "item-1".into(),
            description: "Butter Chicken".into(),
            hsn_sac: None,
            quantity: 2,
            unit_price_paise: 32000,
            discount_per_unit_paise: 0,
            tax_profile_id: "gst5".into(),
            pricing_mode: PricingMode::Exclusive,
            rates: gst_restaurant_5(),
        },
        Line {
            order_item_id: "item-2".into(),
            description: "Coke".into(),
            hsn_sac: None,
            quantity: 1,
            unit_price_paise: 6000,
            discount_per_unit_paise: 0,
            tax_profile_id: "gst5".into(),
            pricing_mode: PricingMode::Exclusive,
            rates: gst_restaurant_5(),
        },
        Line {
            order_item_id: "item-3".into(),
            description: "Sweetened Beverage".into(),
            hsn_sac: None,
            quantity: 1,
            unit_price_paise: 5000,
            discount_per_unit_paise: 0,
            tax_profile_id: "gst12cess".into(),
            pricing_mode: PricingMode::Exclusive,
            rates: vec![
                ResolvedRate { component: TaxComponent::Cgst, rate_bps: 600 },
                ResolvedRate { component: TaxComponent::Sgst, rate_bps: 600 },
                ResolvedRate { component: TaxComponent::Cess, rate_bps: 280 },
            ],
        },
    ];

    let (lcs, totals) = compute_invoice(&lines).expect("compute");
    assert_eq!(lcs.len(), 3);
    assert_eq!(lcs[0].taxable_value_paise, 64000);
    assert_eq!(lcs[2].total_paise, 5000 + 600 + 140);
    assert_eq!(totals.taxable_value_paise, 75000);
    assert_eq!(totals.cgst_paise, 2050);
    assert_eq!(totals.sgst_paise, 2050);
    assert_eq!(totals.cess_paise, 140);
    let pre_round = totals.taxable_value_paise
        + totals.cgst_paise
        + totals.sgst_paise
        + totals.igst_paise
        + totals.cess_paise;
    assert_eq!(pre_round, 79240);
    assert_eq!(totals.grand_total_paise, 79200);
    assert_eq!(totals.round_off_paise, -40);
}

#[test]
fn inclusive_pricing_reconstructs_gross_exactly() {
    let lines = vec![
        Line {
            order_item_id: "item-1".into(),
            description: "Thali".into(),
            hsn_sac: None,
            quantity: 1,
            unit_price_paise: 10500,
            discount_per_unit_paise: 0,
            tax_profile_id: "gst5".into(),
            pricing_mode: PricingMode::Inclusive,
            rates: gst_restaurant_5(),
        },
        Line {
            order_item_id: "item-2".into(),
            description: "Lassi".into(),
            hsn_sac: None,
            quantity: 3,
            unit_price_paise: 9900,
            discount_per_unit_paise: 0,
            tax_profile_id: "gst5".into(),
            pricing_mode: PricingMode::Inclusive,
            rates: gst_restaurant_5(),
        },
    ];

    let (lcs, _) = compute_invoice(&lines).expect("compute");
    for lc in &lcs {
        let gross = lc.gross_paise - lc.discount_paise;
        let reconstructed =
            lc.taxable_value_paise + lc.cgst_paise + lc.sgst_paise + lc.igst_paise + lc.cess_paise;
        assert_eq!(reconstructed, gross);
        assert_eq!(lc.total_paise, gross);
    }
    assert_eq!(lcs[0].taxable_value_paise, 10000);
}

#[test]
fn rejects_invalid_lines() {
    let bad = vec![
        line("x", 0, 100, 0, "", PricingMode::Exclusive, vec![]),
        line("x", 1, -1, 0, "", PricingMode::Exclusive, vec![]),
        line("x", 1, 100, 200, "", PricingMode::Exclusive, vec![]),
    ];
    for l in bad {
        assert!(compute_invoice(&[l]).is_err());
    }
}

#[test]
fn an_invalid_line_is_reported_with_its_index() {
    let lines = vec![
        line("ok", 1, 100, 0, "p", PricingMode::Exclusive, gst_restaurant_5()),
        line("bad", 1, 100, 200, "p", PricingMode::Exclusive, vec![]),
    ];
    match compute_invoice(&lines) {
        Err(DbError::InvalidInput(edge_database::error::InvalidInput::InvoiceLine { index, .. })) => {
            assert_eq!(index, 1)
        }
        other => panic!("expected an invoice-line rejection, got {other:?}"),
    }
}

#[test]
fn invoice_components_equal_the_sum_of_line_components() {
    let lines = vec![
        line("a", 3, 3333, 111, "p", PricingMode::Exclusive, gst_restaurant_5()),
        line("b", 2, 4999, 0, "p", PricingMode::Inclusive, gst_restaurant_5()),
    ];
    let (lcs, totals) = compute_invoice(&lines).expect("compute");
    let cgst: i64 = lcs.iter().map(|l| l.cgst_paise).sum();
    let sgst: i64 = lcs.iter().map(|l| l.sgst_paise).sum();
    assert_eq!(cgst, totals.cgst_paise);
    assert_eq!(sgst, totals.sgst_paise);
    assert_eq!(totals.grand_total_paise % 100, 0);
    assert!(totals.round_off_paise >= -49 && totals.round_off_paise <= 50);
}

#[test]
fn reordering_the_lines_leaves_the_totals_unchanged() {
    let a = line("a", 3, 3333, 111, "p", PricingMode::Exclusive, gst_restaurant_5());
    let b = line("b", 2, 4999, 0, "p", PricingMode::Inclusive, gst_restaurant_5());
    let c = line("c", 1, 1001, 0, "p", PricingMode::Exclusive, gst_restaurant_5());
    let (_, t1) = compute_invoice(&[a.clone(), b.clone(), c.clone()]).expect("compute");
    let (_, t2) = compute_invoice(&[c, a, b]).expect("compute");
    assert_eq!(t1.subtotal_paise, t2.subtotal_paise);
    assert_eq!(t1.taxable_value_paise, t2.taxable_value_paise);
    assert_eq!(t1.cgst_paise, t2.cgst_paise);
    assert_eq!(t1.sgst_paise, t2.sgst_paise);
    assert_eq!(t1.round_off_paise, t2.round_off_paise);
    assert_eq!(t1.grand_total_paise, t2.grand_total_paise);
}

#[test]
fn half_up_rounds_exact_half_up() {
    assert_eq!(round_half_up_div(5, 10), 1);
    assert_eq!(round_half_up_div(4, 10), 0);
    assert_eq!(round_half_up_div(0, 10), 0);
}

#[test]
fn round_to_nearest_rupee_rounds_half_up() {
    assert_eq!(round_to_nearest_rupee(79240), 79200);
    assert_eq!(round_to_nearest_rupee(79250), 79300);
    assert_eq!(round_to_nearest_rupee(79260), 79300);
}

#[test]
fn largest_remainder_split_is_total_preserving() {
    let shares = largest_remainder_split(100, &[250, 250]);
    assert_eq!(shares.iter().sum::<i64>(), 100);
    assert_eq!(shares, vec![50, 50]);
}

#[test]
fn largest_remainder_split_zero_weight_lands_on_first_bucket() {
    let shares = largest_remainder_split(37, &[0, 0]);
    assert_eq!(shares, vec![37, 0]);
}

#[test]
fn largest_remainder_split_zero_total_is_all_zero() {
    let shares = largest_remainder_split(0, &[250, 250, 280]);
    assert_eq!(shares, vec![0, 0, 0]);
}

#[test]
fn largest_remainder_split_gives_leftover_to_largest_remainders() {
    let shares = largest_remainder_split(101, &[250, 250, 280]);
    assert_eq!(shares.iter().sum::<i64>(), 101);
    assert_eq!(shares, vec![33, 32, 36]);
}

// ------------------------------------------------------------- resolve ----

fn profile(id: &str, outlet_id: &str, is_default: bool, is_active: bool) -> TaxProfile {
    TaxProfile {
        id: id.to_string(),
        outlet_id: outlet_id.to_string(),
        code: id.to_string(),
        name: id.to_string(),
        pricing_mode: "EXCLUSIVE".to_string(),
        is_default,
        is_active,
        config_version: 1,
    }
}

fn version(id: &str, outlet_id: &str, effective_from: &str) -> ComplianceVersion {
    ComplianceVersion {
        id: id.to_string(),
        outlet_id: outlet_id.to_string(),
        label: id.to_string(),
        effective_from: effective_from.to_string(),
        notes: None,
        config_version: 1,
    }
}

fn rule(
    profile_id: &str,
    version_id: &str,
    component: &str,
    rate_bps: i64,
    effective_from: &str,
    effective_to: Option<&str>,
) -> TaxRule {
    TaxRule {
        id: format!("{profile_id}-{version_id}-{component}-{effective_from}"),
        tax_profile_id: profile_id.to_string(),
        compliance_version_id: version_id.to_string(),
        component: component.to_string(),
        rate_bps,
        effective_from: effective_from.to_string(),
        effective_to: effective_to.map(|s| s.to_string()),
        config_version: 1,
    }
}

fn rate_of(rates: &[ResolvedRate], component: TaxComponent) -> i64 {
    rates.iter().find(|r| r.component == component).map(|r| r.rate_bps).unwrap_or(0)
}

#[test]
fn pin_set_and_valid_resolves_to_pinned_profile_not_default() {
    let profiles = vec![
        profile("p-default", "outlet-1", true, true),
        profile("p-liquor", "outlet-1", false, true),
    ];
    let got = resolve_tax_profile(&profiles, "outlet-1", Some("p-liquor"), now())
        .expect("pinned profile must resolve");
    assert_eq!(got.id, "p-liquor");
}

#[test]
fn pin_set_but_profile_inactive_errors_never_falls_back_to_default() {
    let profiles = vec![
        profile("p-default", "outlet-1", true, true),
        profile("p-retired", "outlet-1", false, false),
    ];
    let err = resolve_tax_profile(&profiles, "outlet-1", Some("p-retired"), now())
        .expect_err("an inactive pinned profile must error, not silently fall back");
    assert!(matches!(err, DbError::InvalidInput(_)), "expected InvalidInput, got {err:?}");
}

#[test]
fn pin_set_but_profile_belongs_to_different_outlet_errors() {
    let profiles = vec![
        profile("p-default", "outlet-1", true, true),
        profile("p-other-outlet", "outlet-2", true, true),
    ];
    let err = resolve_tax_profile(&profiles, "outlet-1", Some("p-other-outlet"), now())
        .expect_err("a profile belonging to a different outlet must error");
    assert!(matches!(err, DbError::InvalidInput(_)));
}

#[test]
fn pin_set_but_profile_absent_entirely_errors() {
    let profiles = vec![profile("p-default", "outlet-1", true, true)];
    let err = resolve_tax_profile(&profiles, "outlet-1", Some("does-not-exist"), now())
        .expect_err("a pin naming a nonexistent profile must error");
    assert!(matches!(err, DbError::InvalidInput(_)));
}

#[test]
fn pin_none_resolves_to_outlet_default() {
    let profiles = vec![
        profile("p-nondefault", "outlet-1", false, true),
        profile("p-default", "outlet-1", true, true),
    ];
    let got = resolve_tax_profile(&profiles, "outlet-1", None, now())
        .expect("default profile must resolve");
    assert_eq!(got.id, "p-default");
}

#[test]
fn pin_none_with_no_active_default_errors() {
    let profiles = vec![profile("p-inactive-default", "outlet-1", true, false)];
    let err = resolve_tax_profile(&profiles, "outlet-1", None, now())
        .expect_err("no active default must error");
    assert!(matches!(err, DbError::InvalidInput(_)));
}

#[test]
fn compliance_version_effective_from_boundary_is_inclusive() {
    let change = parse_utc("2026-04-01T00:00:00Z").unwrap();
    let versions = vec![
        version("v1", "outlet-1", "2025-01-01T00:00:00Z"),
        version("v2", "outlet-1", "2026-04-01T00:00:00Z"),
    ];
    let at_boundary =
        resolve_compliance_version(&versions, "outlet-1", change).expect("resolve at boundary");
    assert_eq!(at_boundary.id, "v2");
    let before_boundary = resolve_compliance_version(&versions, "outlet-1", just_before(change))
        .expect("resolve just before boundary");
    assert_eq!(before_boundary.id, "v1");
}

#[test]
fn compliance_version_resolves_past_instant_to_past_ruleset() {
    let versions = vec![
        version("v1", "outlet-1", "2025-01-01T00:00:00Z"),
        version("v2", "outlet-1", "2026-04-01T00:00:00Z"),
        version("v-other-outlet", "outlet-2", "2025-06-01T00:00:00Z"),
    ];
    let got = resolve_compliance_version(
        &versions,
        "outlet-1",
        parse_utc("2025-06-01T00:00:00Z").unwrap(),
    )
    .expect("resolve");
    assert_eq!(got.id, "v1");
    let err = resolve_compliance_version(
        &versions,
        "outlet-1",
        parse_utc("2024-01-01T00:00:00Z").unwrap(),
    )
    .expect_err("before any version existed must error");
    assert!(matches!(err, DbError::InvalidInput(_)));
}

#[test]
fn an_unparseable_version_timestamp_is_an_error() {
    let versions = vec![version("v1", "outlet-1", "not a timestamp")];
    let err = resolve_compliance_version(&versions, "outlet-1", now())
        .expect_err("an unparseable effective_from must error");
    assert!(matches!(
        err,
        DbError::InvalidInput(edge_database::error::InvalidInput::InvalidTimestamp(_))
    ));
}

#[test]
fn parse_utc_reads_the_instant_not_the_text() {
    let t = parse_utc("2026-01-01T05:30:00+05:30").unwrap();
    let u = parse_utc("2026-01-01T00:00:00Z").unwrap();
    assert_eq!(t, u);
    assert_eq!(u.secs, 1_767_225_600);
}

#[test]
fn rates_effective_from_and_effective_to_boundaries() {
    let change = parse_utc("2026-01-01T00:00:00Z").unwrap();
    let rules = vec![
        rule("profile-1", "version-1", "CGST", 250, "2025-01-01T00:00:00Z", Some("2026-01-01T00:00:00Z")),
        rule("profile-1", "version-1", "CGST", 900, "2026-01-01T00:00:00Z", None),
    ];
    let at_boundary = resolve_rates(&rules, "profile-1", "version-1", change).expect("resolve");
    assert_eq!(rate_of(&at_boundary, TaxComponent::Cgst), 900);
    let before_boundary =
        resolve_rates(&rules, "profile-1", "version-1", just_before(change)).expect("resolve");
    assert_eq!(rate_of(&before_boundary, TaxComponent::Cgst), 250);
}

#[test]
fn rates_unknown_profile_version_pair_errors() {
    let rules = vec![rule("profile-1", "version-1", "CGST", 250, "2025-01-01T00:00:00Z", None)];
    let err = resolve_rates(
        &rules,
        "unknown-profile",
        "version-1",
        parse_utc("2026-01-01T00:00:00Z").unwrap(),
    )
    .expect_err("an unknown profile/version pair must error");
    assert!(matches!(err, DbError::InvalidInput(_)));
}

#[test]
fn rates_component_with_no_rule_is_absent_not_zero_entry() {
    let rules = vec![rule("profile-1", "version-1", "IGST", 1200, "2025-01-01T00:00:00Z", None)];
    let got = resolve_rates(
        &rules,
        "profile-1",
        "version-1",
        parse_utc("2026-01-01T00:00:00Z").unwrap(),
    )
    .expect("resolve");
    assert_eq!(got.len(), 1);
    assert_eq!(got[0].component, TaxComponent::Igst);
}

#[test]
fn an_unknown_component_refuses_the_whole_resolution() {
    let rules = vec![rule("profile-1", "version-1", "VAT", 1200, "2025-01-01T00:00:00Z", None)];
    let err = resolve_rates(&rules, "profile-1", "version-1", now())
        .expect_err("an unknown component must error");
    assert!(matches!(
        err,
        DbError::InvalidInput(edge_database::error::InvalidInput::UnknownTaxComponent(_))
    ));
}

#[test]
fn tax_component_spellings_round_trip() {
    for c in [TaxComponent::Cgst, TaxComponent::Sgst, TaxComponent::Igst, TaxComponent::Cess] {
        assert_eq!(TaxComponent::parse(c.as_str()).unwrap(), c);
    }
    assert!(TaxComponent::parse("cgst").is_err());
    assert_eq!(PricingMode::parse("INCLUSIVE").unwrap(), PricingMode::Inclusive);
    assert_eq!(PricingMode::Exclusive.as_str(), "EXCLUSIVE");
    assert!(PricingMode::parse("GROSS").is_err());
}

// ------------------------------------------------------------ snapshot ----

fn snapshot_version(id: &str, outlet_id: &str) -> ComplianceVersion {
    ComplianceVersion {
        id: id.to_string(),
        outlet_id: outlet_id.to_string(),
        label: format!("{id}-label"),
        effective_from: "2026-01-01T00:00:00Z".to_string(),
        notes: None,
        config_version: 1,
    }
}

fn snapshot_profile(id: &str, outlet_id: &str, code: &str) -> TaxProfile {
    TaxProfile {
        id: id.to_string(),
        outlet_id: outlet_id.to_string(),
        code: code.to_string(),
        name: code.to_string(),
        pricing_mode: "EXCLUSIVE".to_string(),
        is_default: false,
        is_active: true,
        config_version: 1,
    }
}

fn snapshot_rule(profile_id: &str, version_id: &str, component: &str, rate_bps: i64) -> TaxRule {
    TaxRule {
        id: format!("{profile_id}-{version_id}-{component}"),
        tax_profile_id: profile_id.to_string(),
        compliance_version_id: version_id.to_string(),
        component: component.to_string(),
        rate_bps,
        effective_from: "2026-01-01T00:00:00Z".to_string(),
        effective_to: None,
        config_version: 1,
    }
}

fn snapshot_line(order_item_id: &str, tax_profile_id: &str) -> Line {
    line(order_item_id, 1, 1000, 0, tax_profile_id, PricingMode::Exclusive, vec![])
}

fn find<'a>(snapshots: &'a [TaxSnapshot], id: &str) -> &'a TaxSnapshot {
    snapshots.iter().find(|s| s.tax_profile_id == id).expect("snapshot for profile")
}

#[test]
fn build_tax_snapshots_captures_every_profile_on_a_mixed_rate_bill() {
    let outlet_id = "outlet-1";
    let versions = vec![snapshot_version("cv-1", outlet_id)];
    let profiles = vec![
        snapshot_profile("p-food", outlet_id, "GST_5_FOOD"),
        snapshot_profile("p-liquor", outlet_id, "GST_18_LIQUOR"),
        snapshot_profile("p-cess", outlet_id, "GST_12_CESS"),
    ];
    let rules = vec![
        snapshot_rule("p-food", "cv-1", "CGST", 250),
        snapshot_rule("p-food", "cv-1", "SGST", 250),
        snapshot_rule("p-liquor", "cv-1", "CGST", 900),
        snapshot_rule("p-liquor", "cv-1", "SGST", 900),
        snapshot_rule("p-cess", "cv-1", "CGST", 600),
        snapshot_rule("p-cess", "cv-1", "SGST", 600),
        snapshot_rule("p-cess", "cv-1", "CESS", 280),
    ];
    let lines = vec![
        snapshot_line("item-1", "p-food"),
        snapshot_line("item-2", "p-liquor"),
        snapshot_line("item-3", "p-cess"),
        snapshot_line("item-4", "p-food"),
    ];
    let at = parse_utc("2026-06-01T00:00:00Z").unwrap();
    let snapshots = build_tax_snapshots(&versions, &profiles, &rules, outlet_id, &lines, at)
        .expect("build snapshots");

    assert_eq!(snapshots.len(), 3);
    assert!(snapshots.iter().any(|s| s.tax_profile_id == "p-food"));
    assert!(snapshots.iter().any(|s| s.tax_profile_id == "p-liquor"));
    assert!(snapshots.iter().any(|s| s.tax_profile_id == "p-cess"));
    assert_eq!(find(&snapshots, "p-liquor").tax_profile_code, "GST_18_LIQUOR");
    let liquor_rates: Vec<_> = find(&snapshots, "p-liquor").rates.iter().map(|r| r.rate_bps).collect();
    assert_eq!(liquor_rates, vec![900, 900]);
    let cess_components: Vec<_> =
        find(&snapshots, "p-cess").rates.iter().map(|r| r.component.as_str()).collect();
    assert_eq!(cess_components, vec!["CGST", "SGST", "CESS"]);
    assert_eq!(find(&snapshots, "p-food").compliance_version_label, "cv-1-label");
    assert_eq!(find(&snapshots, "p-food").resolved_at, at);
}

#[test]
fn build_tax_snapshots_errors_when_a_referenced_compliance_version_is_missing() {
    let outlet_id = "outlet-1";
    let lines = vec![snapshot_line("item-1", "p-food")];
    let err = build_tax_snapshots(&[], &[], &[], outlet_id, &lines, now())
        .expect_err("no compliance version at all must error");
    assert!(matches!(err, DbError::InvalidInput(_)));
}

#[test]
fn a_line_naming_an_unknown_profile_is_refused_by_id() {
    let versions = vec![snapshot_version("cv-1", "outlet-1")];
    let profiles = vec![snapshot_profile("p-food", "outlet-1", "GST_5_FOOD")];
    let rules = vec![snapshot_rule("p-food", "cv-1", "CGST", 250)];
    let lines = vec![snapshot_line("item-1", "p-food"), snapshot_line("item-2", "p-ghost")];
    let at = parse_utc("2026-06-01T00:00:00Z").unwrap();
    let err = build_tax_snapshots(&versions, &profiles, &rules, "outlet-1", &lines, at)
        .expect_err("an unknown profile must error");
    assert!(matches!(
        err,
        DbError::InvalidInput(edge_database::error::InvalidInput::UnknownTaxProfile { ref tax_profile_id })
            if tax_profile_id == "p-ghost"
    ));
}

#[test]
fn no_profiles_at_all_refuses_the_first_line() {
    let versions = vec![snapshot_version("cv-1", "outlet-1")];
    let lines = vec![snapshot_line("item-1", "p-food")];
    let at = parse_utc("2026-06-01T00:00:00Z").unwrap();
    let err = build_tax_snapshots(&versions, &[], &[], "outlet-1", &lines, at)
        .expect_err("an empty profile list must error");
    assert!(matches!(
        err,
        DbError::InvalidInput(edge_database::error::InvalidInput::UnknownTaxProfile { ref tax_profile_id })
            if tax_profile_id == "p-food"
    ));
}

#[test]
fn a_known_profile_without_rules_fails_the_snapshot() {
    let versions = vec![snapshot_version("cv-1", "outlet-1")];
    let profiles = vec![snapshot_profile("p-food", "outlet-1", "GST_5_FOOD")];
    let lines = vec![snapshot_line("item-1", "p-food")];
    let at = parse_utc("2026-06-01T00:00:00Z").unwrap();
    let err = build_tax_snapshots(&versions, &profiles, &[], "outlet-1", &lines, at)
        .expect_err("a profile with no rules must error");
    assert!(matches!(
        err,
        DbError::InvalidInput(edge_database::error::InvalidInput::NoTaxRules { .. })
    ));
}

#[test]
fn the_first_line_whose_rates_fail_names_the_refusal() {
    let versions = vec![snapshot_version("cv-1", "outlet-1")];
    let profiles = vec![
        snapshot_profile("p-food", "outlet-1", "GST_5_FOOD"),
        snapshot_profile("p-odd", "outlet-1", "ODD"),
        snapshot_profile("p-bare", "outlet-1", "BARE"),
    ];
    let rules = vec![
        snapshot_rule("p-food", "cv-1", "CGST", 250),
        snapshot_rule("p-odd", "cv-1", "VAT", 500),
    ];
    // p-odd (a rule with an unknown component) comes before p-bare (no
    // rules at all), so its refusal is the one returned.
    let lines = vec![
        snapshot_line("item-1", "p-food"),
        snapshot_line("item-2", "p-odd"),
        snapshot_line("item-3", "p-bare"),
    ];
    let at = parse_utc("2026-06-01T00:00:00Z").unwrap();
    let err = build_tax_snapshots(&versions, &profiles, &rules, "outlet-1", &lines, at)
        .expect_err("an unknown component must error");
    assert!(matches!(
        err,
        DbError::InvalidInput(edge_database::error::InvalidInput::UnknownTaxComponent(ref c)) if c == "VAT"
    ));
}

#[test]
fn build_tax_snapshot_records_version_profile_and_rates() {
    let v = snapshot_version("cv-9", "outlet-1");
    let p = snapshot_profile("p-x", "outlet-1", "CODE_X");
    let at = parse_utc("2026-06-01T00:00:00Z").unwrap();
    let s = build_tax_snapshot(&v, &p, gst_restaurant_5(), at);
    assert_eq!(s.compliance_version_id, "cv-9");
    assert_eq!(s.compliance_version_label, "cv-9-label");
    assert_eq!(s.tax_profile_code, "CODE_X");
    assert_eq!(s.pricing_mode, "EXCLUSIVE");
    assert_eq!(s.rates.len(), 2);
}
