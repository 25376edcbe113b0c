//! Purchase-unit conversion for the inbound path. The conversion happens
//! exactly once, and both sides are stored: the typed figure and the rate
//! actually applied. Nothing here refuses a receipt for a business reason:
//! every unresolvable condition degrades to a usable conversion with a gap
//! reason attached. Only malformed magnitudes are errors.
//!
//! The applied rate (yield folded in) is rounded first and stored, and the
//! base quantity is derived from the stored rate, so a stored line
//! recomputes its own base quantity from its own two columns.

use vstd::prelude::*;
use crate::error::{DbError, DbResult, InvalidInput};
use crate::inventory::{
    lemma_round_exact_multiple, lemma_round_half_away_bounds, lemma_round_half_away_law, round_half_away,
    round_ratio_half_away_from_zero,
};
use crate::model::MAX_SAFE_INTEGER;
use crate::text::str_eq;

verus! {

/// One micro-unit scale factor: a `*_micro` value is its unit x 10^6.
pub const MICRO: i64 = 1_000_000i64;

/// The identity yield in parts per million (100%).
pub const IDENTITY_PPM: i64 = 1_000_000i64;

/// The closed set of `grn_gap.reason` values.
#[derive(Debug, Clone, Copy, PartialEq, Eq, PartialOrd, Ord, Hash, Structural)]
pub enum GrnGapReason {
    /// Received with no purchase order at all.
    NoPurchaseOrder,
    /// A purchase order was referenced but never reached this outlet.
    PurchaseOrderNotFound,
    /// An item was received that the purchase order does not list.
    PoLineNotFound,
    /// Over-delivery against the ordered quantity.
    QuantityExceedsOrdered,
    /// No supplier item row for this item and unit.
    NoSupplierItem,
    /// The purchase unit is not convertible to the item's base unit.
    NoUnitConversion,
    /// The dimension the author entered differs from the item's dimension.
    DimensionMismatch,
    /// A delivery from a supplier this outlet has no row for.
    SupplierNotFound,
}

/// The stored spelling of a gap reason.
pub open spec fn gap_name(r: GrnGapReason) -> Seq<char> {
    match r {
        GrnGapReason::NoPurchaseOrder => "NO_PURCHASE_ORDER"@,
        GrnGapReason::PurchaseOrderNotFound => "PURCHASE_ORDER_NOT_FOUND"@,
        GrnGapReason::PoLineNotFound => "PO_LINE_NOT_FOUND"@,
        GrnGapReason::QuantityExceedsOrdered => "QUANTITY_EXCEEDS_ORDERED"@,
        GrnGapReason::NoSupplierItem => "NO_SUPPLIER_ITEM"@,
        GrnGapReason::NoUnitConversion => "NO_UNIT_CONVERSION"@,
        GrnGapReason::DimensionMismatch => "DIMENSION_MISMATCH"@,
        GrnGapReason::SupplierNotFound => "SUPPLIER_NOT_FOUND"@,
    }
}

impl GrnGapReason {
    /// The stored spelling, as the migration's CHECK names it.
    pub fn as_str(self) -> (s: &'static str)
        ensures
            s@ == gap_name(self),
    {
        match self {
            GrnGapReason::NoPurchaseOrder => "NO_PURCHASE_ORDER",
            GrnGapReason::PurchaseOrderNotFound => "PURCHASE_ORDER_NOT_FOUND",
            GrnGapReason::PoLineNotFound => "PO_LINE_NOT_FOUND",
            GrnGapReason::QuantityExceedsOrdered => "QUANTITY_EXCEEDS_ORDERED",
            GrnGapReason::NoSupplierItem => "NO_SUPPLIER_ITEM",
            GrnGapReason::NoUnitConversion => "NO_UNIT_CONVERSION",
            GrnGapReason::DimensionMismatch => "DIMENSION_MISMATCH",
            GrnGapReason::SupplierNotFound => "SUPPLIER_NOT_FOUND",
        }
    }
}

/// `v` fits an `i64`.
pub open spec fn in_i64(v: int) -> bool {
    i64::MIN <= v <= i64::MAX
}

/// `v` as an `i64` when it fits, else `fallback`.
pub open spec fn fit_or(v: int, fallback: int) -> int {
    if in_i64(v) { v } else { fallback }
}

/// The exact product of two `i64`s, widened.
pub fn mul_wide(a: i64, b: i64) -> (r: i128)
    ensures
        r == a * b,
        r > i128::MIN,
{
    proof {
        assert(-0x8000_0000_0000_0000_0000_0000_0000_0000 < a * b < 0x7fff_ffff_ffff_ffff_ffff_ffff_ffff_ffff)
            by (nonlinear_arith)
            requires
                -0x8000_0000_0000_0000 <= a <= 0x7fff_ffff_ffff_ffff,
                -0x8000_0000_0000_0000 <= b <= 0x7fff_ffff_ffff_ffff,
        ;
    }
    (a as i128) * (b as i128)
}

/// The inventory item facts the inbound path reads: name and dimension for
/// the ledger row and the mismatch comparison, and the yield applied at
/// receipt.
#[derive(Debug, Clone)]
pub struct ReceivingItem {
    pub name: String,
    pub dimension: String,
    pub yield_factor_ppm: i64,
}

/// Where a pack rate came from.
#[derive(Debug, Clone, Copy, PartialEq, Eq, Structural)]
pub enum PackSource {
    /// The supplier's own declared pack size.
    SupplierItem,
    /// The frozen dimensional unit map.
    UnitLabel,
    /// The item's own pack conversion.
    ItemConversion,
    /// Nothing converts: the identity, recorded as typed.
    Unconverted,
}

/// One purchase unit is `num / den` base micro-units.
#[derive(Debug, Clone, Copy, PartialEq, Eq, Structural)]
pub struct PackRate {
    pub num: i64,
    pub den: i64,
    pub source: PackSource,
}

/// The pack rate chosen from the looked-up candidates, in order: the
/// supplier item row, the unit map, the item's own conversion (when both
/// terms are positive), else the identity.
pub open spec fn pack_rate_spec(
    supplier_pack: Option<i64>,
    unit_map_micro: Option<i64>,
    item_conversion: Option<(i64, i64)>,
) -> PackRate {
    match supplier_pack {
        Some(k) => PackRate { num: k, den: 1, source: PackSource::SupplierItem },
        None => match unit_map_micro {
            Some(m) => PackRate { num: m, den: 1, source: PackSource::UnitLabel },
            None => match item_conversion {
                Some((n, d)) if d > 0 && n > 0 => PackRate {
                    num: n,
                    den: d,
                    source: PackSource::ItemConversion,
                },
                _ => PackRate { num: MICRO, den: 1, source: PackSource::Unconverted },
            },
        },
    }
}

/// Resolves how many base micro-units one purchase unit contains from the
/// three candidate sources (`supplier_pack` is `None` when no supplier was
/// named or the supplier has no row for the item and unit). Never fails.
pub fn resolve_pack_rate(
    supplier_pack: Option<i64>,
    unit_map_micro: Option<i64>,
    item_conversion: Option<(i64, i64)>,
) -> (p: PackRate)
    ensures
        p == pack_rate_spec(supplier_pack, unit_map_micro, item_conversion),
{
    if let Some(k) = supplier_pack {
        return PackRate { num: k, den: 1, source: PackSource::SupplierItem };
    }
    if let Some(m) = unit_map_micro {
        return PackRate { num: m, den: 1, source: PackSource::UnitLabel };
    }
    if let Some((n, d)) = item_conversion {
        if d > 0 && n > 0 {
            return PackRate { num: n, den: d, source: PackSource::ItemConversion };
        }
    }
    PackRate { num: MICRO, den: 1, source: PackSource::Unconverted }
}

/// The refusal a quantity gets: not positive, or past 2^53 - 1.
pub open spec fn range_error(value: i64, field: &'static str) -> Option<DbError> {
    if value <= 0 {
        Some(DbError::InvalidInput(InvalidInput::NotPositive { field, value }))
    } else if value > MAX_SAFE_INTEGER {
        Some(DbError::InvalidInput(InvalidInput::PastSafeInteger { field, value }))
    } else {
        None
    }
}

/// The refusal a money amount gets: negative, or past 2^53 - 1.
pub open spec fn money_error(value: i64, field: &'static str) -> Option<DbError> {
    if value < 0 {
        Some(DbError::InvalidInput(InvalidInput::NegativeMoney { field, value }))
    } else if value > MAX_SAFE_INTEGER {
        Some(DbError::InvalidInput(InvalidInput::PastSafeInteger { field, value }))
    } else {
        None
    }
}

/// Validates one caller-supplied quantity: positive and within 2^53 - 1.
pub fn require_in_safe_range(value: i64, field: &'static str) -> (r: DbResult<()>)
    ensures
        match r {
            Ok(()) => range_error(value, field) is None,
            Err(e) => range_error(value, field) == Some(e),
        },
{
    if value <= 0 {
        return Err(DbError::InvalidInput(InvalidInput::NotPositive { field, value }));
    }
    if value > MAX_SAFE_INTEGER {
        return Err(DbError::InvalidInput(InvalidInput::PastSafeInteger { field, value }));
    }
    Ok(())
}

/// Validates one caller-supplied money amount: not negative and within
/// 2^53 - 1.
pub fn require_non_negative_money(value: i64, field: &'static str) -> (r: DbResult<()>)
    ensures
        match r {
            Ok(()) => money_error(value, field) is None,
            Err(e) => money_error(value, field) == Some(e),
        },
{
    if value < 0 {
        return Err(DbError::InvalidInput(InvalidInput::NegativeMoney { field, value }));
    }
    if value > MAX_SAFE_INTEGER {
        return Err(DbError::InvalidInput(InvalidInput::PastSafeInteger { field, value }));
    }
    Ok(())
}

/// The applied rate: the pack rate with the yield folded in, rounded once
/// half away from zero. The identity yield on a whole-number pack rate is
/// exact. `None` when the result does not fit an `i64` or the denominator
/// is not positive.
pub open spec fn effective_rate_spec(pack: PackRate, yield_factor_ppm: i64) -> Option<int> {
    if yield_factor_ppm == IDENTITY_PPM && pack.den == 1 {
        Some(pack.num as int)
    } else if pack.den * MICRO <= 0 {
        None
    } else {
        let r = round_half_away(pack.num * yield_factor_ppm, pack.den * MICRO);
        if in_i64(r) { Some(r) } else { None }
    }
}

/// Folds the item's yield into the pack rate, rounding once.
pub fn effective_rate(pack: &PackRate, yield_factor_ppm: i64) -> (r: Option<i64>)
    ensures
        match r {
            Some(v) => effective_rate_spec(*pack, yield_factor_ppm) == Some(v as int),
            None => effective_rate_spec(*pack, yield_factor_ppm) is None,
        },
{
    if yield_factor_ppm == IDENTITY_PPM && pack.den == 1 {
        return Some(pack.num);
    }
    let num = mul_wide(pack.num, yield_factor_ppm);
    let den = mul_wide(pack.den, MICRO);
    if den <= 0 {
        return None;
    }
    let rounded = round_ratio_half_away_from_zero(num, den);
    if rounded < i64::MIN as i128 || rounded > i64::MAX as i128 {
        return None;
    }
    Some(rounded as i64)
}

/// A stored rate applied to a typed quantity, rounded once.
pub open spec fn base_quantity_spec(entered_quantity_micro: int, pack_size_micro_applied: int) -> Option<int> {
    let r = round_half_away(entered_quantity_micro * pack_size_micro_applied, MICRO as int);
    if in_i64(r) { Some(r) } else { None }
}

/// Applies a stored rate to a typed quantity: the function an auditor
/// re-runs against a stored receipt line, from its own two columns.
pub fn base_quantity_from_stored_rate(
    entered_quantity_micro: i64,
    pack_size_micro_applied: i64,
) -> (r: Option<i64>)
    ensures
        match r {
            Some(v) => base_quantity_spec(entered_quantity_micro as int, pack_size_micro_applied as int)
                == Some(v as int),
            None => base_quantity_spec(entered_quantity_micro as int, pack_size_micro_applied as int) is None,
        },
{
    let num = mul_wide(entered_quantity_micro, pack_size_micro_applied);
    let rounded = round_ratio_half_away_from_zero(num, MICRO as i128);
    if rounded < i64::MIN as i128 || rounded > i64::MAX as i128 {
        return None;
    }
    Some(rounded as i64)
}

/// A fully resolved receipt line: both sides of the conversion, the money,
/// and the gap reasons the resolution produced.
#[derive(Debug, Clone)]
pub struct LineConversion {
    /// The rate actually applied, yield folded in.
    pub pack_size_micro_applied: i64,
    pub base_quantity_micro: i64,
    /// Paise per base unit.
    pub unit_cost_paise: i64,
    pub line_total_paise: i64,
    /// Distinct gap reasons, in the closed set's declaration order.
    pub gaps: Vec<GrnGapReason>,
    /// When the computed conversion was unusable: the rate and base
    /// quantity it produced before the line fell back to the typed figure.
    pub rejected: Option<(i64, i64)>,
}

/// The gap reasons of one conversion, in declaration order and without
/// repeats.
pub open spec fn conversion_gaps(no_supplier_item: bool, no_unit_conversion: bool, mismatch: bool) -> Seq<
    GrnGapReason,
> {
    let a: Seq<GrnGapReason> = if no_supplier_item {
        seq![GrnGapReason::NoSupplierItem]
    } else {
        seq![]
    };
    let b: Seq<GrnGapReason> = if no_unit_conversion {
        a.push(GrnGapReason::NoUnitConversion)
    } else {
        a
    };
    if mismatch {
        b.push(GrnGapReason::DimensionMismatch)
    } else {
        b
    }
}

/// The rate the computation produced, before any fallback (`0` when it
/// could not be computed).
pub open spec fn computed_rate(pack: PackRate, yield_factor_ppm: i64) -> int {
    match effective_rate_spec(pack, yield_factor_ppm) {
        Some(v) => v,
        None => 0,
    }
}

/// The base quantity the computation produced, before any fallback.
pub open spec fn computed_base(pack: PackRate, yield_factor_ppm: i64, entered: i64) -> int {
    match base_quantity_spec(entered as int, computed_rate(pack, yield_factor_ppm)) {
        Some(v) => v,
        None => 0,
    }
}

/// The computed conversion is unusable: no positive rate, or a base
/// quantity outside `1..=2^53-1`.
pub open spec fn conversion_unusable(pack: PackRate, yield_factor_ppm: i64, entered: i64) -> bool {
    let applied = computed_rate(pack, yield_factor_ppm);
    let base = computed_base(pack, yield_factor_ppm, entered);
    applied <= 0 || base <= 0 || base > MAX_SAFE_INTEGER
}

/// The line total: price per purchase unit times the typed quantity of
/// purchase units, rounded once; a total past `i64` is recorded as
/// 2^53 - 1.
pub open spec fn line_total_spec(entered: int, price: int) -> int {
    fit_or(round_half_away(entered * price, MICRO as int), MAX_SAFE_INTEGER as int)
}

/// The unit cost: the line total spread over the base units received.
pub open spec fn unit_cost_spec(line_total: int, base: int) -> int {
    fit_or(round_half_away(line_total * MICRO, base), MAX_SAFE_INTEGER as int)
}

/// `c` is the conversion of a valid line.
pub open spec fn conversion_of(
    c: LineConversion,
    pack: PackRate,
    item: ReceivingItem,
    declared_dimension: Seq<char>,
    entered: i64,
    price: i64,
) -> bool {
    let y = item.yield_factor_ppm;
    let unusable = conversion_unusable(pack, y, entered);
    &&& c.pack_size_micro_applied == (if unusable { MICRO as int } else { computed_rate(pack, y) })
    &&& c.base_quantity_micro == (if unusable { entered as int } else { computed_base(pack, y, entered) })
    &&& c.rejected == (if unusable {
        Some((computed_rate(pack, y) as i64, computed_base(pack, y, entered) as i64))
    } else {
        None
    })
    &&& c.line_total_paise == line_total_spec(entered as int, price as int)
    &&& c.unit_cost_paise == unit_cost_spec(c.line_total_paise as int, c.base_quantity_micro as int)
    &&& c.gaps@ == conversion_gaps(
        pack.source != PackSource::SupplierItem,
        pack.source == PackSource::Unconverted || unusable,
        declared_dimension != item.dimension@,
    )
}

/// Resolves one receipt line against its pack rate. Refuses only a typed
/// quantity outside `1..=2^53-1` or a price outside `0..=2^53-1`; any
/// conversion that is unusable falls back to the typed figure with a
/// `NO_UNIT_CONVERSION` gap. `declared_dimension` is the author's own
/// declaration and is only ever compared with the item's dimension.
pub fn resolve_line_conversion(
    pack: &PackRate,
    item: &ReceivingItem,
    declared_dimension: &str,
    entered_quantity_micro: i64,
    purchase_price_paise: i64,
) -> (r: DbResult<LineConversion>)
    ensures
        match r {
            Ok(c) => {
                &&& range_error(entered_quantity_micro, "entered_quantity_micro") is None
                &&& money_error(purchase_price_paise, "purchase_price_paise") is None
                &&& conversion_of(
                    c,
                    *pack,
                    *item,
                    declared_dimension@,
                    entered_quantity_micro,
                    purchase_price_paise,
                )
            },
            Err(e) => match range_error(entered_quantity_micro, "entered_quantity_micro") {
                Some(e1) => e == e1,
                None => money_error(purchase_price_paise, "purchase_price_paise") == Some(e),
            },
        },
{
    match require_in_safe_range(entered_quantity_micro, "entered_quantity_micro") {
        Ok(()) => {},
        Err(e) => return Err(e),
    }
    match require_non_negative_money(purchase_price_paise, "purchase_price_paise") {
        Ok(()) => {},
        Err(e) => return Err(e),
    }
    let ghost y = item.yield_factor_ppm;
    let mut applied: i64 = match effective_rate(pack, item.yield_factor_ppm) {
        Some(v) => v,
        None => 0,
    };
    let mut base: i64 = match base_quantity_from_stored_rate(entered_quantity_micro, applied) {
        Some(v) => v,
        None => 0,
    };
    let mut rejected: Option<(i64, i64)> = None;
    if applied <= 0 || base <= 0 || base > MAX_SAFE_INTEGER {
        rejected = Some((applied, base));
        applied = MICRO;
        base = entered_quantity_micro;
    }
    let unusable = rejected.is_some();
    let mut gaps: Vec<GrnGapReason> = Vec::new();
    if pack.source != PackSource::SupplierItem {
        gaps.push(GrnGapReason::NoSupplierItem);
    }
    if pack.source == PackSource::Unconverted || unusable {
        gaps.push(GrnGapReason::NoUnitConversion);
    }
    if !str_eq(declared_dimension, item.dimension.as_str()) {
        gaps.push(GrnGapReason::DimensionMismatch);
    }
    let total = round_ratio_half_away_from_zero(
        mul_wide(entered_quantity_micro, purchase_price_paise),
        MICRO as i128,
    );
    let line_total_paise: i64 = if total < i64::MIN as i128 || total > i64::MAX as i128 {
        MAX_SAFE_INTEGER
    } else {
        total as i64
    };
    let cost = round_ratio_half_away_from_zero(mul_wide(line_total_paise, MICRO), base as i128);
    let unit_cost_paise: i64 = if cost < i64::MIN as i128 || cost > i64::MAX as i128 {
        MAX_SAFE_INTEGER
    } else {
        cost as i64
    };
    proof {
        assert(gaps@ =~= conversion_gaps(
            pack.source != PackSource::SupplierItem,
            pack.source == PackSource::Unconverted || unusable,
            declared_dimension@ != item.dimension@,
        ));
    }
    Ok(
        LineConversion {
            pack_size_micro_applied: applied,
            base_quantity_micro: base,
            unit_cost_paise,
            line_total_paise,
            gaps,
            rejected,
        },
    )
}

/// A resolved line is reproducible from itself: re-applying its stored
/// rate to its typed quantity gives back its stored base quantity, and
/// that base quantity is always within `1..=2^53-1`.
pub proof fn lemma_stored_line_recomputes(
    c: LineConversion,
    pack: PackRate,
    item: ReceivingItem,
    declared_dimension: Seq<char>,
    entered: i64,
    price: i64,
)
    requires
        range_error(entered, "entered_quantity_micro") is None,
        conversion_of(c, pack, item, declared_dimension, entered, price),
    ensures
        base_quantity_spec(entered as int, c.pack_size_micro_applied as int) == Some(
            c.base_quantity_micro as int,
        ),
        0 < c.base_quantity_micro <= MAX_SAFE_INTEGER,
{
    if conversion_unusable(pack, item.yield_factor_ppm, entered) {
        lemma_round_exact_multiple(entered as int, MICRO as int);
    }
}

/// What a resolved receipt line records, from its own inputs: every
/// figure is rounded once, half up, at micro-unit scale. The line total is
/// within half a paisa of `entered * price / 10^6` (when that fits an
/// `i64`); the base quantity is positive, at most `2^53 - 1`, and within
/// half a micro-unit of `entered * applied_rate / 10^6`; the unit cost is
/// within half a paisa of `line_total * 10^6 / base` (when that fits). A
/// `NO_SUPPLIER_ITEM` gap is recorded exactly when the rate did not come
/// from the supplier's own row, and a `DIMENSION_MISMATCH` gap exactly when
/// the declared dimension is not the item's.
pub proof fn lemma_receipt_line_law(
    c: LineConversion,
    pack: PackRate,
    item: ReceivingItem,
    declared_dimension: Seq<char>,
    entered: i64,
    price: i64,
)
    requires
        range_error(entered, "entered_quantity_micro") is None,
        money_error(price, "purchase_price_paise") is None,
        conversion_of(c, pack, item, declared_dimension, entered, price),
    ensures
        1 <= entered <= 9_007_199_254_740_991,
        0 <= price <= 9_007_199_254_740_991,
        entered * price <= 1_000_000 * 0x4000_0000_0000_0000 ==> 1_000_000 * (2 * c.line_total_paise - 1) <= 2
            * entered * price && 2 * entered * price < 1_000_000 * (2 * c.line_total_paise + 1),
        1 <= c.base_quantity_micro <= 9_007_199_254_740_991,
        1_000_000 * (2 * c.base_quantity_micro - 1) <= 2 * entered * c.pack_size_micro_applied,
        2 * entered * c.pack_size_micro_applied < 1_000_000 * (2 * c.base_quantity_micro + 1),
        c.line_total_paise >= 0 && c.line_total_paise * 1_000_000 <= c.base_quantity_micro * 0x4000_0000_0000_0000
            ==> c.base_quantity_micro * (2 * c.unit_cost_paise - 1) <= 2 * c.line_total_paise * 1_000_000
            && 2 * c.line_total_paise * 1_000_000 < c.base_quantity_micro * (2 * c.unit_cost_paise + 1),
        c.gaps@.contains(GrnGapReason::NoSupplierItem) <==> pack.source != PackSource::SupplierItem,
        c.gaps@.contains(GrnGapReason::DimensionMismatch) <==> declared_dimension != item.dimension@,
{
    lemma_stored_line_recomputes(c, pack, item, declared_dimension, entered, price);
    let e = entered as int;
    let a = c.pack_size_micro_applied as int;
    let b = c.base_quantity_micro as int;
    assert(e * a >= 0 || e * a < 0);
    lemma_round_half_away_law(e * a, 1_000_000);
    assert(b == round_half_away(e * a, 1_000_000));
    if e * a < 0 {
        lemma_round_half_away_bounds(e * a, 1_000_000);
        assert(false);
    }
    assert(2 * e * a == 2 * (e * a)) by (nonlinear_arith);
    assert(2 * (entered as int) * (c.pack_size_micro_applied as int) == 2 * (e * a));
    let pr = price as int;
    assert(2 * e * pr == 2 * (e * pr)) by (nonlinear_arith);
    assert(2 * (entered as int) * (price as int) == 2 * (e * pr));
    assert(e * pr >= 0) by (nonlinear_arith)
        requires
            e >= 1,
            pr >= 0,
    ;
    lemma_round_half_away_law(e * pr, 1_000_000);
    if e * pr <= 1_000_000 * 0x4000_0000_0000_0000 {
        let t = round_half_away(e * pr, 1_000_000);
        lemma_round_half_away_bounds(e * pr, 1_000_000);
        assert(t <= 0x4000_0000_0000_0000 + 1) by (nonlinear_arith)
            requires
                1_000_000 * (2 * t - 1) <= 2 * (e * pr),
                e * pr <= 1_000_000 * 0x4000_0000_0000_0000,
        ;
        assert(in_i64(t));
        assert(c.line_total_paise == t);
    }
    let lt = c.line_total_paise as int;
    assert(2 * lt * 1_000_000 == 2 * (lt * 1_000_000)) by (nonlinear_arith);
    if lt >= 0 && lt * 1_000_000 <= b * 0x4000_0000_0000_0000 {
        lemma_round_half_away_law(lt * 1_000_000, b);
        let u = round_half_away(lt * 1_000_000, b);
        lemma_round_half_away_bounds(lt * 1_000_000, b);
        assert(u <= 0x4000_0000_0000_0000 + 1) by (nonlinear_arith)
            requires
                b * (2 * u - 1) <= 2 * (lt * 1_000_000),
                lt * 1_000_000 <= b * 0x4000_0000_0000_0000,
                b >= 1,
        ;
        assert(in_i64(u));
        assert(c.unit_cost_paise == u);
    }
    let y = item.yield_factor_ppm;
    let unusable = conversion_unusable(pack, y, entered);
    let g0: Seq<GrnGapReason> = if pack.source != PackSource::SupplierItem {
        seq![GrnGapReason::NoSupplierItem]
    } else {
        seq![]
    };
    let g1: Seq<GrnGapReason> = if pack.source == PackSource::Unconverted || unusable {
        g0.push(GrnGapReason::NoUnitConversion)
    } else {
        g0
    };
    assert(c.gaps@ == (if declared_dimension != item.dimension@ {
        g1.push(GrnGapReason::DimensionMismatch)
    } else {
        g1
    }));
    if pack.source != PackSource::SupplierItem {
        assert(c.gaps@[0] == GrnGapReason::NoSupplierItem);
    } else {
        assert forall|k: int| 0 <= k < c.gaps@.len() implies c.gaps@[k] != GrnGapReason::NoSupplierItem by {}
    }
    if declared_dimension != item.dimension@ {
        assert(c.gaps@[c.gaps@.len() - 1] == GrnGapReason::DimensionMismatch);
    } else {
        assert forall|k: int| 0 <= k < c.gaps@.len() implies c.gaps@[k] != GrnGapReason::DimensionMismatch by {}
    }
}

/// Which rate a receipt uses: the supplier's own pack size whenever it
/// exists; else the unit map's; else the item's own conversion when both
/// its terms are positive; else the identity (one purchase unit is one
/// base unit, `10^6` micro-units). With the identity yield a whole-number
/// rate is applied as is; otherwise the applied rate is within half a
/// micro-unit of `num * yield_ppm / (den * 10^6)`.
pub proof fn lemma_rate_choice_law(
    supplier_pack: Option<i64>,
    unit_map_micro: Option<i64>,
    item_conversion: Option<(i64, i64)>,
    yield_ppm: i64,
)
    ensures
        ({
            let p = pack_rate_spec(supplier_pack, unit_map_micro, item_conversion);
            &&& supplier_pack matches Some(k) ==> p.num == k && p.den == 1 && p.source == PackSource::SupplierItem
            &&& supplier_pack is None ==> (unit_map_micro matches Some(m) ==> p.num == m && p.den == 1 && p.source
                == PackSource::UnitLabel)
            &&& supplier_pack is None && unit_map_micro is None ==> match item_conversion {
                Some((n, d)) => if n > 0 && d > 0 {
                    p.num == n && p.den == d && p.source == PackSource::ItemConversion
                } else {
                    p.num == 1_000_000 && p.den == 1 && p.source == PackSource::Unconverted
                },
                None => p.num == 1_000_000 && p.den == 1 && p.source == PackSource::Unconverted,
            }
            &&& yield_ppm == 1_000_000 && p.den == 1 ==> effective_rate_spec(p, yield_ppm) == Some(p.num as int)
            &&& p.den > 0 && !(yield_ppm == 1_000_000 && p.den == 1) && p.num * yield_ppm >= 0 ==> (
                effective_rate_spec(p, yield_ppm) matches Some(r) ==> p.den * 1_000_000 * (2 * r - 1) <= 2 * (p.num
                * yield_ppm) && 2 * (p.num * yield_ppm) < p.den * 1_000_000 * (2 * r + 1))
        }),
{
    let p = pack_rate_spec(supplier_pack, unit_map_micro, item_conversion);
    if p.den > 0 {
        assert(p.den * 1_000_000 > 0) by (nonlinear_arith)
            requires
                p.den > 0,
        ;
        lemma_round_half_away_law(p.num * yield_ppm, p.den * 1_000_000);
    }
}

} // verus!
