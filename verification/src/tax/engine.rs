//! Tax computation over a set of lines, in both pricing modes.
//!
//! Tax is computed per line at full precision, summed per component across
//! the invoice, each component rounded half-up to paise exactly once, and
//! the grand total rounded to the nearest rupee with the delta recorded in
//! `round_off_paise`.
//!
//! Inclusive lines carry an exact per-line tax (`net - taxable`) that is
//! split across the line's own components with the largest-remainder
//! split. Exclusive lines absorb the invoice-level rounding: the raw
//! `taxable * rate_bps` contributions are summed per component, rounded
//! once, and that rounded amount is split back across the exclusive lines
//! in proportion to their raw contributions. The invoice's component total
//! is the sum of the two, so the printed lines always add up to the
//! printed invoice.

use vstd::prelude::*;
use crate::error::{DbError, DbResult, InvalidInput, LineRejection};
use super::domain::{
    component_at, component_order_at, component_value, component_value_spec, rate_for,
    rate_for_spec, rate_from, rate_sum_spec, set_component_value, sum_rate_bps, Line, LineComputation,
    InvoiceTotals, PricingMode, ResolvedRate, TaxComponent, rate_prefix_sum, rate_sums_fit,
};
use super::rounding::{
    largest_remainder_split, nearest_rupee, round_component_paise, round_half_up,
    round_half_up_div, round_to_nearest_rupee, split_inputs_ok, split_spec, weight_prefix_sum,
    weight_sum, BPS_DENOMINATOR,
};

verus! {

// ----------------------------------------------------------- line level --

/// The first check a line fails, if any.
pub open spec fn line_rejection(l: Line) -> Option<LineRejection> {
    if l.quantity <= 0 {
        Some(LineRejection::QuantityNotPositive)
    } else if l.unit_price_paise < 0 {
        Some(LineRejection::UnitPriceNegative)
    } else if l.discount_per_unit_paise < 0 {
        Some(LineRejection::DiscountNegative)
    } else if l.discount_per_unit_paise > l.unit_price_paise {
        Some(LineRejection::DiscountExceedsUnitPrice)
    } else if exists|k: int| 0 <= k < l.rates@.len() && #[trigger] l.rates@[k].rate_bps < 0 {
        Some(LineRejection::RateNegative)
    } else {
        None
    }
}

/// A line the engine accepts.
pub open spec fn line_valid(l: Line) -> bool {
    line_rejection(l) is None
}

/// `unit_price * quantity`.
pub open spec fn gross(l: Line) -> int {
    l.unit_price_paise * l.quantity
}

/// `discount_per_unit * quantity`.
pub open spec fn line_discount(l: Line) -> int {
    l.discount_per_unit_paise * l.quantity
}

/// What the customer pays for the line before tax is split out or added.
pub open spec fn net(l: Line) -> int {
    gross(l) - line_discount(l)
}

/// The line's rate for the `c`-th component of the fixed order.
pub open spec fn rate_c(l: Line, c: int) -> i64 {
    rate_for_spec(l.rates@, component_at(c))
}

/// The taxable value: the net itself when tax is added on top, or the net
/// with the tax backed out (rounded half-up once) when it is embedded.
pub open spec fn taxable(l: Line) -> int {
    match l.pricing_mode {
        PricingMode::Exclusive => net(l),
        PricingMode::Inclusive => round_half_up(
            net(l) * BPS_DENOMINATOR,
            BPS_DENOMINATOR + rate_sum_spec(l.rates@),
        ),
    }
}

/// The four component rates of a line, in the fixed order.
pub open spec fn component_rates(l: Line) -> Seq<i64> {
    seq![rate_c(l, 0), rate_c(l, 1), rate_c(l, 2), rate_c(l, 3)]
}

/// An inclusive line's share of its own exact tax for component `c`.
pub open spec fn inclusive_share(l: Line, c: int) -> int {
    split_spec(net(l) - taxable(l), component_rates(l))[c]
}

/// An exclusive line's raw `taxable * rate` contribution to component `c`.
pub open spec fn exclusive_weight(l: Line, c: int) -> int {
    taxable(l) * rate_c(l, c)
}

pub open spec fn is_inclusive(l: Line) -> bool {
    l.pricing_mode == PricingMode::Inclusive
}

// -------------------------------------------------------- invoice level --

/// Every one of the first `k` lines is accepted.
pub open spec fn prefix_valid(lines: Seq<Line>, k: int) -> bool {
    forall|i: int| 0 <= i < k ==> #[trigger] line_valid(lines[i])
}

pub open spec fn gross_prefix(lines: Seq<Line>, k: int) -> int
    decreases k,
{
    if k <= 0 { 0 } else { gross_prefix(lines, k - 1) + gross(lines[k - 1]) }
}

pub open spec fn discount_prefix(lines: Seq<Line>, k: int) -> int
    decreases k,
{
    if k <= 0 { 0 } else { discount_prefix(lines, k - 1) + line_discount(lines[k - 1]) }
}

pub open spec fn taxable_prefix(lines: Seq<Line>, k: int) -> int
    decreases k,
{
    if k <= 0 { 0 } else { taxable_prefix(lines, k - 1) + taxable(lines[k - 1]) }
}

/// Sum of the raw exclusive contributions to component `c` over the first
/// `k` lines.
pub open spec fn exclusive_scaled_prefix(lines: Seq<Line>, c: int, k: int) -> int
    decreases k,
{
    if k <= 0 {
        0
    } else {
        exclusive_scaled_prefix(lines, c, k - 1) + if is_inclusive(lines[k - 1]) {
            0
        } else {
            exclusive_weight(lines[k - 1], c)
        }
    }
}

/// Sum of the inclusive lines' shares of component `c` over the first `k`
/// lines.
pub open spec fn inclusive_prefix(lines: Seq<Line>, c: int, k: int) -> int
    decreases k,
{
    if k <= 0 {
        0
    } else {
        inclusive_prefix(lines, c, k - 1) + if is_inclusive(lines[k - 1]) {
            inclusive_share(lines[k - 1], c)
        } else {
            0
        }
    }
}

/// The raw contributions to component `c` of the exclusive lines among the
/// first `k`, in line order.
pub open spec fn exclusive_weights_prefix(lines: Seq<Line>, c: int, k: int) -> Seq<i64>
    decreases k,
{
    if k <= 0 {
        Seq::empty()
    } else if is_inclusive(lines[k - 1]) {
        exclusive_weights_prefix(lines, c, k - 1)
    } else {
        exclusive_weights_prefix(lines, c, k - 1).push(exclusive_weight(lines[k - 1], c) as i64)
    }
}

/// How many exclusive lines precede line `i`.
pub open spec fn exclusive_position(lines: Seq<Line>, i: int) -> int {
    exclusive_weights_prefix(lines, 0, i).len() as int
}

/// Component `c`'s exclusive total, rounded half-up exactly once.
pub open spec fn exclusive_rounded(lines: Seq<Line>, c: int) -> int {
    round_half_up(exclusive_scaled_prefix(lines, c, lines.len() as int), BPS_DENOMINATOR as int)
}

/// Line `i`'s paise of component `c`.
pub open spec fn line_component(lines: Seq<Line>, i: int, c: int) -> int {
    if is_inclusive(lines[i]) {
        inclusive_share(lines[i], c)
    } else {
        split_spec(
            exclusive_rounded(lines, c),
            exclusive_weights_prefix(lines, c, lines.len() as int),
        )[exclusive_position(lines, i)]
    }
}

/// Line `i`'s total: taxable value plus every component.
pub open spec fn line_total(lines: Seq<Line>, i: int) -> int {
    taxable(lines[i]) + line_component(lines, i, 0) + line_component(lines, i, 1)
        + line_component(lines, i, 2) + line_component(lines, i, 3)
}

/// The invoice's own total for component `c`.
pub open spec fn component_total(lines: Seq<Line>, c: int) -> int {
    inclusive_prefix(lines, c, lines.len() as int) + exclusive_rounded(lines, c)
}

/// The invoice total before the round-to-the-rupee step.
pub open spec fn pre_round(lines: Seq<Line>) -> int {
    taxable_prefix(lines, lines.len() as int) + component_total(lines, 0) + component_total(
        lines,
        1,
    ) + component_total(lines, 2) + component_total(lines, 3)
}

/// The invoice totals the engine produces for accepted lines.
pub open spec fn totals_spec(lines: Seq<Line>) -> InvoiceTotals {
    let n = lines.len() as int;
    InvoiceTotals {
        subtotal_paise: gross_prefix(lines, n) as i64,
        discount_paise: discount_prefix(lines, n) as i64,
        taxable_value_paise: taxable_prefix(lines, n) as i64,
        cgst_paise: component_total(lines, 0) as i64,
        sgst_paise: component_total(lines, 1) as i64,
        igst_paise: component_total(lines, 2) as i64,
        cess_paise: component_total(lines, 3) as i64,
        round_off_paise: (nearest_rupee(pre_round(lines)) - pre_round(lines)) as i64,
        grand_total_paise: nearest_rupee(pre_round(lines)) as i64,
    }
}

/// `lc` is what the engine computes for line `i` of `lines`.
pub open spec fn line_matches(lines: Seq<Line>, i: int, lc: LineComputation) -> bool {
    let l = lines[i];
    &&& lc.order_item_id == l.order_item_id
    &&& lc.description == l.description
    &&& lc.hsn_sac == l.hsn_sac
    &&& lc.quantity == l.quantity
    &&& lc.unit_price_paise == l.unit_price_paise
    &&& lc.gross_paise == gross(l)
    &&& lc.discount_paise == line_discount(l)
    &&& lc.taxable_value_paise == taxable(l)
    &&& lc.tax_profile_id == l.tax_profile_id
    &&& lc.cgst_rate_bps == rate_c(l, 0)
    &&& lc.sgst_rate_bps == rate_c(l, 1)
    &&& lc.igst_rate_bps == rate_c(l, 2)
    &&& lc.cess_rate_bps == rate_c(l, 3)
    &&& lc.cgst_paise == line_component(lines, i, 0)
    &&& lc.sgst_paise == line_component(lines, i, 1)
    &&& lc.igst_paise == line_component(lines, i, 2)
    &&& lc.cess_paise == line_component(lines, i, 3)
    &&& lc.total_paise == line_total(lines, i)
}

/// The sum over the first `k` computed lines of component `c`.
pub open spec fn computed_component_prefix(lcs: Seq<LineComputation>, c: int, k: int) -> int
    decreases k,
{
    if k <= 0 {
        0
    } else {
        computed_component_prefix(lcs, c, k - 1) + component_value_spec(lcs[k - 1], component_at(c))
    }
}

// -------------------------------------------------------------- ranges --

pub open spec fn in_i64(x: int) -> bool {
    i64::MIN <= x <= i64::MAX
}

/// Every intermediate value of one accepted line stays inside `i64`.
pub open spec fn line_fits(l: Line) -> bool {
    &&& gross(l) <= i64::MAX
    &&& rate_sum_spec(l.rates@) <= i64::MAX
    &&& is_inclusive(l) ==> {
        &&& BPS_DENOMINATOR + rate_sum_spec(l.rates@) <= i64::MAX
        &&& net(l) * BPS_DENOMINATOR <= i64::MAX
        &&& weight_sum(component_rates(l)) <= i64::MAX
        &&& forall|c: int| 0 <= c < 4 ==> (net(l) - taxable(l)) * #[trigger] rate_c(l, c) <= i64::MAX
    }
    &&& !is_inclusive(l) ==> forall|c: int| 0 <= c < 4 ==> #[trigger] exclusive_weight(l, c) <= i64::MAX
}

/// Every running total after the first `k` lines stays inside `i64`.
pub open spec fn prefix_fits(lines: Seq<Line>, k: int) -> bool {
    &&& gross_prefix(lines, k) <= i64::MAX
    &&& discount_prefix(lines, k) <= i64::MAX
    &&& taxable_prefix(lines, k) <= i64::MAX
    &&& forall|c: int| 0 <= c < 4 ==> #[trigger] exclusive_scaled_prefix(lines, c, k) <= i64::MAX
    &&& forall|c: int| 0 <= c < 4 ==> #[trigger] inclusive_prefix(lines, c, k) <= i64::MAX
}

/// Every invoice-level value of an accepted invoice stays inside `i64`.
pub open spec fn invoice_level_fits(lines: Seq<Line>) -> bool {
    let n = lines.len() as int;
    &&& pre_round(lines) <= i64::MAX
    &&& forall|c: int, k: int|
        0 <= c < 4 && 0 <= k < exclusive_weights_prefix(lines, c, n).len() ==> exclusive_rounded(
            lines,
            c,
        ) * #[trigger] exclusive_weights_prefix(lines, c, n)[k] <= i64::MAX
    &&& forall|i: int| 0 <= i < n ==> #[trigger] line_total(lines, i) <= i64::MAX
}

/// The inputs on which the engine's `i64` arithmetic never overflows:
/// exactly the values it computes for the lines it reaches.
pub open spec fn invoice_fits(lines: Seq<Line>) -> bool {
    &&& forall|i: int| 0 <= i < lines.len() && prefix_valid(lines, i + 1) ==> #[trigger] line_fits(lines[i])
    &&& forall|k: int| 0 <= k <= lines.len() && prefix_valid(lines, k) ==> #[trigger] prefix_fits(lines, k)
    &&& prefix_valid(lines, lines.len() as int) ==> invoice_level_fits(lines)
}

// ---------------------------------------------------------- line facts --

proof fn lemma_rate_from_nonneg(rates: Seq<ResolvedRate>, comp: TaxComponent, from: int)
    requires
        forall|k: int| 0 <= k < rates.len() ==> #[trigger] rates[k].rate_bps >= 0,
    ensures
        rate_from(rates, comp, from) >= 0,
    decreases rates.len() - from,
{
    if 0 <= from < rates.len() && rates[from].component != comp {
        lemma_rate_from_nonneg(rates, comp, from + 1);
    }
}

proof fn lemma_rate_prefix_monotone(rates: Seq<ResolvedRate>, a: int, b: int)
    requires
        0 <= a <= b <= rates.len(),
        forall|k: int| 0 <= k < rates.len() ==> #[trigger] rates[k].rate_bps >= 0,
    ensures
        0 <= rate_prefix_sum(rates, a) <= rate_prefix_sum(rates, b),
    decreases b,
{
    if b > a {
        lemma_rate_prefix_monotone(rates, a, b - 1);
    } else if a > 0 {
        lemma_rate_prefix_monotone(rates, a - 1, a - 1);
    }
}

/// The arithmetic facts every accepted line satisfies.
pub proof fn lemma_valid_line_facts(l: Line)
    requires
        line_valid(l),
        line_fits(l),
    ensures
        0 <= line_discount(l) <= gross(l) <= i64::MAX,
        0 <= net(l),
        rate_sums_fit(l.rates@),
        0 <= rate_sum_spec(l.rates@),
        forall|c: int| 0 <= c < 4 ==> #[trigger] rate_c(l, c) >= 0,
        0 <= taxable(l) <= net(l),
        !is_inclusive(l) ==> taxable(l) == net(l),
        forall|c: int| 0 <= c < 4 ==> #[trigger] exclusive_weight(l, c) >= 0,
{
    let rates = l.rates@;
    assert forall|k: int| 0 <= k < rates.len() implies #[trigger] rates[k].rate_bps >= 0 by {
        if rates[k].rate_bps < 0 {
            assert(0 <= k < l.rates@.len() && l.rates@[k].rate_bps < 0);
        }
    }
    assert forall|k: int| 0 <= k <= rates.len() implies i64::MIN <= #[trigger] rate_prefix_sum(rates, k) <= i64::MAX by {
        lemma_rate_prefix_monotone(rates, k, rates.len() as int);
    }
    lemma_rate_prefix_monotone(rates, 0, rates.len() as int);
    assert forall|c: int| 0 <= c < 4 implies #[trigger] rate_c(l, c) >= 0 by {
        lemma_rate_from_nonneg(rates, component_at(c), 0);
    }
    let q = l.quantity as int;
    let u = l.unit_price_paise as int;
    let d = l.discount_per_unit_paise as int;
    assert(0 <= d * q <= u * q) by (nonlinear_arith)
        requires
            q > 0,
            0 <= d <= u,
    ;
    let nt = net(l);
    if is_inclusive(l) {
        let r = rate_sum_spec(rates);
        let x = nt * 10000;
        let den = 10000 + r;
        assert(0 <= x / den && x / den + (if 2 * (x % den) >= den { 1int } else { 0int }) <= nt)
            by (nonlinear_arith)
            requires
                x == nt * 10000,
                den == 10000 + r,
                r >= 0,
                nt >= 0,
        {
            assert(x >= 0);
            if r == 0 {
                assert(x / den == nt);
                assert(x % den == 0);
            } else if nt == 0 {
                assert(x == 0);
            } else {
                assert(x < nt * den);
                assert((x / den) * den <= x);
                assert(x / den < nt);
            }
        }
    }
    assert forall|c: int| 0 <= c < 4 implies #[trigger] exclusive_weight(l, c) >= 0 by {
        let t = taxable(l);
        let rc = rate_c(l, c) as int;
        assert(t * rc >= 0) by (nonlinear_arith)
            requires
                t >= 0,
                rc >= 0,
        ;
    }
}

/// The taxable value of an accepted line, from its own fields: an
/// exclusive line is taxed on `(unit price - discount) * quantity`; an
/// inclusive line has its whole tax backed out of that amount, so its
/// taxable value `t` is `net * 10000 / (10000 + R)` rounded half-up, `R`
/// the total of every rate on the line: `(2t - 1) * (10000 + R) <= 2 * net
/// * 10000 < (2t + 1) * (10000 + R)`.
pub proof fn lemma_taxable_value(l: Line)
    requires
        line_valid(l),
        line_fits(l),
    ensures
        gross(l) == l.unit_price_paise * l.quantity,
        line_discount(l) == l.discount_per_unit_paise * l.quantity,
        net(l) == l.unit_price_paise * l.quantity - l.discount_per_unit_paise * l.quantity,
        !is_inclusive(l) ==> taxable(l) == net(l),
        is_inclusive(l) ==> ({
            let den = 10000 + rate_sum_spec(l.rates@);
            let x = net(l) * 10000;
            &&& den * (2 * taxable(l) - 1) <= 2 * x
            &&& 2 * x < den * (2 * taxable(l) + 1)
        }),
{
    lemma_valid_line_facts(l);
    if is_inclusive(l) {
        let den = 10000 + rate_sum_spec(l.rates@);
        let x = net(l) * 10000;
        let t = taxable(l);
        assert(t == x / den + if 2 * (x % den) >= den { 1int } else { 0int });
        assert(den * (2 * t - 1) <= 2 * x && 2 * x < den * (2 * t + 1)) by (nonlinear_arith)
            requires
                den > 0,
                x >= 0,
                t == x / den + if 2 * (x % den) >= den { 1int } else { 0int },
        {
            let q = x / den;
            let r = x % den;
            assert(x == den * q + r);
            assert(0 <= r < den);
        }
    }
}

/// Validates a line and computes the fields common to both pricing modes:
/// gross, discount, taxable value and the per-component rates. Component
/// amounts are filled in afterwards.
pub fn compute_line_base(line: &Line) -> (r: Result<LineComputation, LineRejection>)
    requires
        line_valid(*line) ==> line_fits(*line),
    ensures
        match r {
            Err(e) => line_rejection(*line) == Some(e),
            Ok(lc) => {
                &&& line_valid(*line)
                &&& lc.order_item_id == line.order_item_id
                &&& lc.description == line.description
                &&& lc.hsn_sac == line.hsn_sac
                &&& lc.quantity == line.quantity
                &&& lc.unit_price_paise == line.unit_price_paise
                &&& lc.gross_paise == gross(*line)
                &&& lc.discount_paise == line_discount(*line)
                &&& lc.taxable_value_paise == taxable(*line)
                &&& lc.tax_profile_id == line.tax_profile_id
                &&& lc.cgst_rate_bps == rate_c(*line, 0)
                &&& lc.sgst_rate_bps == rate_c(*line, 1)
                &&& lc.igst_rate_bps == rate_c(*line, 2)
                &&& lc.cess_rate_bps == rate_c(*line, 3)
                &&& lc.cgst_paise == 0
                &&& lc.sgst_paise == 0
                &&& lc.igst_paise == 0
                &&& lc.cess_paise == 0
                &&& lc.total_paise == 0
            },
        },
{
    if line.quantity <= 0 {
        return Err(LineRejection::QuantityNotPositive);
    }
    if line.unit_price_paise < 0 {
        return Err(LineRejection::UnitPriceNegative);
    }
    if line.discount_per_unit_paise < 0 {
        return Err(LineRejection::DiscountNegative);
    }
    if line.discount_per_unit_paise > line.unit_price_paise {
        return Err(LineRejection::DiscountExceedsUnitPrice);
    }
    let nr = line.rates.len();
    let mut k: usize = 0;
    while k < nr
        invariant
            k <= nr,
            nr == line.rates@.len(),
            line.quantity > 0,
            line.unit_price_paise >= 0,
            0 <= line.discount_per_unit_paise <= line.unit_price_paise,
            forall|j: int| 0 <= j < k ==> #[trigger] line.rates@[j].rate_bps >= 0,
        decreases nr - k,
    {
        if line.rates[k].rate_bps < 0 {
            assert(line.rates@[k as int].rate_bps < 0);
            return Err(LineRejection::RateNegative);
        }
        k += 1;
    }
    proof {
        lemma_valid_line_facts(*line);
    }
    let gross_paise = line.unit_price_paise * line.quantity;
    let line_discount_paise = line.discount_per_unit_paise * line.quantity;
    let net_paise = gross_paise - line_discount_paise;
    let rate_sum = sum_rate_bps(line.rates.as_slice());
    let taxable_value = match line.pricing_mode {
        PricingMode::Exclusive => net_paise,
        PricingMode::Inclusive => {
            let denominator = BPS_DENOMINATOR + rate_sum;
            if denominator <= 0 {
                return Err(LineRejection::TotalRateNotAboveMinusHundredPercent);
            }
            round_half_up_div(net_paise * BPS_DENOMINATOR, denominator)
        },
    };
    let cgst_rate_bps = rate_for(line.rates.as_slice(), TaxComponent::Cgst);
    let sgst_rate_bps = rate_for(line.rates.as_slice(), TaxComponent::Sgst);
    let igst_rate_bps = rate_for(line.rates.as_slice(), TaxComponent::Igst);
    let cess_rate_bps = rate_for(line.rates.as_slice(), TaxComponent::Cess);
    Ok(LineComputation {
        order_item_id: line.order_item_id.clone(),
        description: line.description.clone(),
        hsn_sac: clone_optional_string(&line.hsn_sac),
        quantity: line.quantity,
        unit_price_paise: line.unit_price_paise,
        gross_paise,
        discount_paise: line_discount_paise,
        taxable_value_paise: taxable_value,
        tax_profile_id: line.tax_profile_id.clone(),
        cgst_rate_bps,
        cgst_paise: 0,
        sgst_rate_bps,
        sgst_paise: 0,
        igst_rate_bps,
        igst_paise: 0,
        cess_rate_bps,
        cess_paise: 0,
        total_paise: 0,
    })
}

/// A copy of an optional string.
pub fn clone_optional_string(s: &Option<String>) -> (r: Option<String>)
    ensures
        r == *s,
{
    match s {
        Some(v) => Some(v.clone()),
        None => None,
    }
}

/// The base fields `compute_line_base` fills for a line.
pub open spec fn base_matches(l: Line, lc: LineComputation) -> bool {
    &&& lc.order_item_id == l.order_item_id
    &&& lc.description == l.description
    &&& lc.hsn_sac == l.hsn_sac
    &&& lc.quantity == l.quantity
    &&& lc.unit_price_paise == l.unit_price_paise
    &&& lc.gross_paise == gross(l)
    &&& lc.discount_paise == line_discount(l)
    &&& lc.taxable_value_paise == taxable(l)
    &&& lc.tax_profile_id == l.tax_profile_id
    &&& lc.cgst_rate_bps == rate_c(l, 0)
    &&& lc.sgst_rate_bps == rate_c(l, 1)
    &&& lc.igst_rate_bps == rate_c(l, 2)
    &&& lc.cess_rate_bps == rate_c(l, 3)
}

/// The sum of a line's four component amounts.
pub open spec fn components_sum(lc: LineComputation) -> int {
    lc.cgst_paise + lc.sgst_paise + lc.igst_paise + lc.cess_paise
}

/// Fills in an inclusive line's own tax components. The line's tax
/// (`net - taxable`) is exact, and the split is total-preserving, so the
/// line's total reconstructs `gross - discount` to the paisa.
pub fn finish_inclusive_line(lc: &mut LineComputation, line: &Line)
    requires
        line_valid(*line),
        line_fits(*line),
        is_inclusive(*line),
        base_matches(*line, *old(lc)),
    ensures
        base_matches(*line, *final(lc)),
        final(lc).cgst_paise == inclusive_share(*line, 0),
        final(lc).sgst_paise == inclusive_share(*line, 1),
        final(lc).igst_paise == inclusive_share(*line, 2),
        final(lc).cess_paise == inclusive_share(*line, 3),
        final(lc).total_paise == taxable(*line) + components_sum(*final(lc)),
        final(lc).total_paise == net(*line),
        components_sum(*final(lc)) == net(*line) - taxable(*line),
        forall|c: int| 0 <= c < 4 ==> #[trigger] inclusive_share(*line, c) >= 0,
{
    proof {
        lemma_valid_line_facts(*line);
    }
    let net_paise = lc.gross_paise - lc.discount_paise;
    let line_tax_total = net_paise - lc.taxable_value_paise;
    let weights: Vec<i64> = vec![
        rate_for(line.rates.as_slice(), TaxComponent::Cgst),
        rate_for(line.rates.as_slice(), TaxComponent::Sgst),
        rate_for(line.rates.as_slice(), TaxComponent::Igst),
        rate_for(line.rates.as_slice(), TaxComponent::Cess),
    ];
    proof {
        assert(weights@ =~= component_rates(*line));
        assert forall|i: int| 0 <= i < weights@.len() implies weights@[i] >= 0 by {
            assert(weights@[i] == rate_c(*line, i));
        }
        assert forall|i: int| 0 <= i < weights@.len() implies line_tax_total * weights@[i] <= i64::MAX by {
            assert(weights@[i] == rate_c(*line, i));
        }
    }
    let shares = largest_remainder_split(line_tax_total, weights.as_slice());
    proof {
        assert(weight_prefix_sum(shares@, 4) == shares@[0] + shares@[1] + shares@[2] + shares@[3]) by {
            reveal_with_fuel(weight_prefix_sum, 5);
        }
    }
    lc.cgst_paise = shares[0];
    lc.sgst_paise = shares[1];
    lc.igst_paise = shares[2];
    lc.cess_paise = shares[3];
    lc.total_paise = lc.taxable_value_paise + lc.cgst_paise + lc.sgst_paise + lc.igst_paise
        + lc.cess_paise;
}

// ------------------------------------------------------ invoice lemmas --

proof fn lemma_exclusive_len(lines: Seq<Line>, c: int, k: int)
    ensures
        exclusive_weights_prefix(lines, c, k).len() == exclusive_weights_prefix(lines, 0, k).len(),
        exclusive_weights_prefix(lines, 0, k).len() <= if k < 0 { 0 } else { k },
    decreases k,
{
    if k > 0 {
        lemma_exclusive_len(lines, c, k - 1);
    }
}

proof fn lemma_prefix_valid_shrink(lines: Seq<Line>, a: int, b: int)
    requires
        a <= b,
        prefix_valid(lines, b),
    ensures
        prefix_valid(lines, a),
{
}

/// Facts about the running totals of an accepted prefix.
proof fn lemma_prefix_facts(lines: Seq<Line>, c: int, k: int)
    requires
        0 <= k <= lines.len(),
        0 <= c < 4,
        prefix_valid(lines, k),
        invoice_fits(lines),
    ensures
        0 <= gross_prefix(lines, k),
        0 <= discount_prefix(lines, k),
        0 <= taxable_prefix(lines, k),
        0 <= exclusive_scaled_prefix(lines, c, k),
        0 <= inclusive_prefix(lines, c, k),
        forall|j: int|
            0 <= j < exclusive_weights_prefix(lines, c, k).len() ==> 0 <= #[trigger] exclusive_weights_prefix(
                lines,
                c,
                k,
            )[j],
        weight_sum(exclusive_weights_prefix(lines, c, k)) == exclusive_scaled_prefix(lines, c, k),
    decreases k,
{
    if k > 0 {
        lemma_prefix_valid_shrink(lines, k - 1, k);
        lemma_prefix_facts(lines, c, k - 1);
        let l = lines[k - 1];
        assert(line_valid(l));
        assert(line_fits(l));
        lemma_valid_line_facts(l);
        assert(prefix_fits(lines, k));
        assert(0 <= gross(l) && 0 <= line_discount(l));
        if is_inclusive(l) {
            let sh = split_spec(net(l) - taxable(l), component_rates(l));
            lemma_split_spec_nonneg(net(l) - taxable(l), component_rates(l));
            assert(inclusive_share(l, c) >= 0);
        } else {
            let prev = exclusive_weights_prefix(lines, c, k - 1);
            let x = exclusive_weight(l, c);
            assert(x >= 0);
            assert(x <= i64::MAX);
            lemma_weight_sum_push(prev, x as i64);
        }
    }
}

/// Appending a weight adds it to the sum.
pub proof fn lemma_weight_sum_push(s: Seq<i64>, x: i64)
    ensures
        weight_sum(s.push(x)) == weight_sum(s) + x,
{
    lemma_weight_prefix_push(s, x, s.len() as int);
}

proof fn lemma_weight_prefix_push(s: Seq<i64>, x: i64, k: int)
    requires
        0 <= k <= s.len(),
    ensures
        weight_prefix_sum(s.push(x), k) == weight_prefix_sum(s, k),
    decreases k,
{
    if k > 0 {
        lemma_weight_prefix_push(s, x, k - 1);
    }
}

/// Every share of a split over non-negative inputs is non-negative.
pub proof fn lemma_split_spec_nonneg(total: int, w: Seq<i64>)
    requires
        total >= 0,
        forall|i: int| 0 <= i < w.len() ==> w[i] >= 0,
    ensures
        forall|i: int| 0 <= i < w.len() ==> #[trigger] split_spec(total, w)[i] >= 0,
{
    assert forall|i: int| 0 <= i < w.len() implies #[trigger] split_spec(total, w)[i] >= 0 by {
        if total != 0 && weight_sum(w) != 0 {
            lemma_weight_sum_nonneg(w, w.len() as int);
            let x = total * w[i];
            assert(x >= 0) by (nonlinear_arith)
                requires
                    total >= 0,
                    w[i] >= 0,
                    x == total * w[i],
            ;
            assert(x / weight_sum(w) >= 0) by (nonlinear_arith)
                requires
                    x >= 0,
                    weight_sum(w) > 0,
            ;
        }
    }
}

proof fn lemma_weight_sum_nonneg(w: Seq<i64>, k: int)
    requires
        0 <= k <= w.len(),
        forall|i: int| 0 <= i < w.len() ==> w[i] >= 0,
    ensures
        weight_prefix_sum(w, k) >= 0,
    decreases k,
{
    if k > 0 {
        lemma_weight_sum_nonneg(w, k - 1);
    }
}

/// Exclusive positions grow with the line index, strictly past an
/// exclusive line.
proof fn lemma_position_monotone(lines: Seq<Line>, j: int, i: int)
    requires
        0 <= j < i,
    ensures
        exclusive_position(lines, j) <= exclusive_position(lines, i),
        !is_inclusive(lines[j]) ==> exclusive_position(lines, j) < exclusive_position(lines, i),
    decreases i - j,
{
    if j + 1 < i {
        lemma_position_monotone(lines, j + 1, i);
    }
}

/// Summing component `c` over the first `k` computed lines.
proof fn lemma_component_sum(
    lines: Seq<Line>,
    lcs: Seq<LineComputation>,
    c: int,
    k: int,
    shares: Seq<i64>,
)
    requires
        0 <= c < 4,
        0 <= k <= lines.len(),
        lcs.len() == lines.len(),
        forall|i: int| 0 <= i < lines.len() ==> #[trigger] line_matches(lines, i, lcs[i]),
        shares.len() == exclusive_weights_prefix(lines, c, lines.len() as int).len(),
        forall|j: int|
            0 <= j < shares.len() ==> #[trigger] shares[j] == split_spec(
                exclusive_rounded(lines, c),
                exclusive_weights_prefix(lines, c, lines.len() as int),
            )[j],
    ensures
        computed_component_prefix(lcs, c, k) == inclusive_prefix(lines, c, k) + weight_prefix_sum(
            shares,
            exclusive_weights_prefix(lines, c, k).len() as int,
        ),
    decreases k,
{
    if k > 0 {
        lemma_component_sum(lines, lcs, c, k - 1, shares);
        let l = lines[k - 1];
        assert(line_matches(lines, k - 1, lcs[k - 1]));
        lemma_exclusive_len(lines, c, k - 1);
        lemma_exclusive_len(lines, c, k);
        lemma_exclusive_len(lines, c, lines.len() as int);
        if k < lines.len() {
            lemma_position_monotone(lines, k - 1, lines.len() as int);
        } else {
            assert(exclusive_weights_prefix(lines, c, lines.len() as int).len()
                == exclusive_weights_prefix(lines, c, k).len());
        }
        if !is_inclusive(l) {
            lemma_position_monotone(lines, k - 1, k);
        }
        assert(component_value_spec(lcs[k - 1], component_at(c)) == line_component(lines, k - 1, c));
    }
}

// ------------------------------------------------------------- engine --

/// Computes every line and the invoice totals. A line that fails
/// validation refuses the whole invoice, naming the first such line.
///
/// On success, each printed component of the invoice is exactly the sum of
/// that component over the printed lines; every inclusive line's total is
/// its gross minus its discount; and the grand total is a whole number of
/// rupees within half a rupee of the unrounded total.
pub fn compute_invoice(lines: &[Line]) -> (r: DbResult<(Vec<LineComputation>, InvoiceTotals)>)
    requires
        invoice_fits(lines@),
    ensures
        r is Ok <==> prefix_valid(lines@, lines@.len() as int),
        match r {
            Err(e) => e matches DbError::InvalidInput(InvalidInput::InvoiceLine { index, reason })
                && index < lines@.len() && prefix_valid(lines@, index as int) && line_rejection(
                lines@[index as int],
            ) == Some(reason),
            Ok((lcs, totals)) => {
                let n = lines@.len() as int;
                &&& lcs@.len() == n
                &&& forall|i: int| 0 <= i < n ==> #[trigger] line_matches(lines@, i, lcs@[i])
                &&& totals == totals_spec(lines@)
                &&& computed_component_prefix(lcs@, 0, n) == totals.cgst_paise
                &&& computed_component_prefix(lcs@, 1, n) == totals.sgst_paise
                &&& computed_component_prefix(lcs@, 2, n) == totals.igst_paise
                &&& computed_component_prefix(lcs@, 3, n) == totals.cess_paise
                &&& forall|i: int|
                    0 <= i < n && is_inclusive(lines@[i]) ==> #[trigger] lcs@[i].total_paise
                        == lcs@[i].gross_paise - lcs@[i].discount_paise
                &&& forall|i: int|
                    0 <= i < n ==> #[trigger] lcs@[i].total_paise == lcs@[i].taxable_value_paise
                        + components_sum(lcs@[i])
                &&& totals.grand_total_paise % 100 == 0
                &&& -49 <= totals.round_off_paise <= 50
                &&& totals.grand_total_paise == totals.taxable_value_paise + totals.cgst_paise
                    + totals.sgst_paise + totals.igst_paise + totals.cess_paise
                    + totals.round_off_paise
            },
        },
{
    let n = lines.len();
    let ghost ls = lines@;
    let mut computed: Vec<LineComputation> = Vec::new();
    let mut subtotal: i64 = 0;
    let mut discount: i64 = 0;
    let mut taxable_sum: i64 = 0;
    let mut es0: i64 = 0;
    let mut es1: i64 = 0;
    let mut es2: i64 = 0;
    let mut es3: i64 = 0;
    let mut is0: i64 = 0;
    let mut is1: i64 = 0;
    let mut is2: i64 = 0;
    let mut is3: i64 = 0;
    let mut exclusive_idx: Vec<usize> = Vec::new();
    let mut ew0: Vec<i64> = Vec::new();
    let mut ew1: Vec<i64> = Vec::new();
    let mut ew2: Vec<i64> = Vec::new();
    let mut ew3: Vec<i64> = Vec::new();
    let mut i: usize = 0;
    while i < n
        invariant
            i <= n,
            n == ls.len(),
            ls == lines@,
            invoice_fits(ls),
            prefix_valid(ls, i as int),
            computed@.len() == i,
            forall|j: int| 0 <= j < i ==> #[trigger] base_matches(ls[j], computed@[j]),
            forall|j: int|
                0 <= j < i && is_inclusive(ls[j]) ==> #[trigger] line_matches(ls, j, computed@[j]),
            forall|j: int|
                0 <= j < i && is_inclusive(ls[j]) ==> #[trigger] computed@[j].total_paise == net(ls[j]),
            subtotal == gross_prefix(ls, i as int),
            discount == discount_prefix(ls, i as int),
            taxable_sum == taxable_prefix(ls, i as int),
            es0 == exclusive_scaled_prefix(ls, 0, i as int),
            es1 == exclusive_scaled_prefix(ls, 1, i as int),
            es2 == exclusive_scaled_prefix(ls, 2, i as int),
            es3 == exclusive_scaled_prefix(ls, 3, i as int),
            is0 == inclusive_prefix(ls, 0, i as int),
            is1 == inclusive_prefix(ls, 1, i as int),
            is2 == inclusive_prefix(ls, 2, i as int),
            is3 == inclusive_prefix(ls, 3, i as int),
            ew0@ == exclusive_weights_prefix(ls, 0, i as int),
            ew1@ == exclusive_weights_prefix(ls, 1, i as int),
            ew2@ == exclusive_weights_prefix(ls, 2, i as int),
            ew3@ == exclusive_weights_prefix(ls, 3, i as int),
            exclusive_idx@.len() == exclusive_weights_prefix(ls, 0, i as int).len(),
            forall|k: int|
                0 <= k < exclusive_idx@.len() ==> {
                    &&& #[trigger] exclusive_idx@[k] < i
                    &&& !is_inclusive(ls[exclusive_idx@[k] as int])
                    &&& exclusive_position(ls, exclusive_idx@[k] as int) == k
                },
        decreases n - i,
    {
        let line = &lines[i];
        proof {
            if line_valid(*line) {
                assert(prefix_valid(ls, i as int + 1));
                assert(line_fits(ls[i as int]));
            }
        }
        let base = compute_line_base(line);
        let mut lc = match base {
            Err(reason) => {
                return Err(DbError::InvalidInput(InvalidInput::InvoiceLine { index: i, reason }));
            },
            Ok(lc) => lc,
        };
        proof {
            assert(prefix_valid(ls, i as int + 1));
            assert(line_fits(*line));
            lemma_valid_line_facts(*line);
            assert(prefix_fits(ls, i as int + 1));
            lemma_prefix_facts(ls, 0, i as int);
            lemma_prefix_facts(ls, 1, i as int);
            lemma_prefix_facts(ls, 2, i as int);
            lemma_prefix_facts(ls, 3, i as int);
            lemma_prefix_facts(ls, 0, i as int + 1);
            lemma_prefix_facts(ls, 1, i as int + 1);
            lemma_prefix_facts(ls, 2, i as int + 1);
            lemma_prefix_facts(ls, 3, i as int + 1);
            lemma_exclusive_len(ls, 0, i as int);
        }
        subtotal = subtotal + lc.gross_paise;
        discount = discount + lc.discount_paise;
        taxable_sum = taxable_sum + lc.taxable_value_paise;
        match line.pricing_mode {
            PricingMode::Inclusive => {
                finish_inclusive_line(&mut lc, line);
                is0 = is0 + component_value(&lc, TaxComponent::Cgst);
                is1 = is1 + component_value(&lc, TaxComponent::Sgst);
                is2 = is2 + component_value(&lc, TaxComponent::Igst);
                is3 = is3 + component_value(&lc, TaxComponent::Cess);
            },
            PricingMode::Exclusive => {
                let t = lc.taxable_value_paise;
                assert(exclusive_weight(*line, 0) <= i64::MAX);
                assert(exclusive_weight(*line, 1) <= i64::MAX);
                assert(exclusive_weight(*line, 2) <= i64::MAX);
                assert(exclusive_weight(*line, 3) <= i64::MAX);
                assert(exclusive_weight(*line, 0) >= 0);
                assert(exclusive_weight(*line, 1) >= 0);
                assert(exclusive_weight(*line, 2) >= 0);
                assert(exclusive_weight(*line, 3) >= 0);
                let w0 = t * rate_for(line.rates.as_slice(), TaxComponent::Cgst);
                let w1 = t * rate_for(line.rates.as_slice(), TaxComponent::Sgst);
                let w2 = t * rate_for(line.rates.as_slice(), TaxComponent::Igst);
                let w3 = t * rate_for(line.rates.as_slice(), TaxComponent::Cess);
                es0 = es0 + w0;
                es1 = es1 + w1;
                es2 = es2 + w2;
                es3 = es3 + w3;
                exclusive_idx.push(i);
                ew0.push(w0);
                ew1.push(w1);
                ew2.push(w2);
                ew3.push(w3);
            },
        }
        computed.push(lc);
        proof {
            assert forall|k: int|
                0 <= k < exclusive_idx@.len() implies {
                &&& #[trigger] exclusive_idx@[k] < i + 1
                &&& !is_inclusive(ls[exclusive_idx@[k] as int])
                &&& exclusive_position(ls, exclusive_idx@[k] as int) == k
            } by {
                if k == exclusive_idx@.len() - 1 && !is_inclusive(*line) {
                    assert(exclusive_idx@[k] == i);
                }
            }
            assert(ew0@ =~= exclusive_weights_prefix(ls, 0, i as int + 1));
            assert(ew1@ =~= exclusive_weights_prefix(ls, 1, i as int + 1));
            assert(ew2@ =~= exclusive_weights_prefix(ls, 2, i as int + 1));
            assert(ew3@ =~= exclusive_weights_prefix(ls, 3, i as int + 1));
        }
        i += 1;
    }
    proof {
        lemma_prefix_facts(ls, 0, n as int);
        lemma_prefix_facts(ls, 1, n as int);
        lemma_prefix_facts(ls, 2, n as int);
        lemma_prefix_facts(ls, 3, n as int);
        assert(invoice_level_fits(ls));
        lemma_exclusive_len(ls, 1, n as int);
        lemma_exclusive_len(ls, 2, n as int);
        lemma_exclusive_len(ls, 3, n as int);
    }
    let r0 = round_component_paise(es0);
    let r1 = round_component_paise(es1);
    let r2 = round_component_paise(es2);
    let r3 = round_component_paise(es3);
    proof {
        assert(r0 == exclusive_rounded(ls, 0));
        assert forall|k: int| 0 <= k < ew0@.len() implies r0 * ew0@[k] <= i64::MAX by {
            assert(exclusive_rounded(ls, 0) * exclusive_weights_prefix(ls, 0, n as int)[k] <= i64::MAX);
        }
        assert forall|k: int| 0 <= k < ew1@.len() implies r1 * ew1@[k] <= i64::MAX by {
            assert(exclusive_rounded(ls, 1) * exclusive_weights_prefix(ls, 1, n as int)[k] <= i64::MAX);
        }
        assert forall|k: int| 0 <= k < ew2@.len() implies r2 * ew2@[k] <= i64::MAX by {
            assert(exclusive_rounded(ls, 2) * exclusive_weights_prefix(ls, 2, n as int)[k] <= i64::MAX);
        }
        assert forall|k: int| 0 <= k < ew3@.len() implies r3 * ew3@[k] <= i64::MAX by {
            assert(exclusive_rounded(ls, 3) * exclusive_weights_prefix(ls, 3, n as int)[k] <= i64::MAX);
        }
    }
    let s0 = largest_remainder_split(r0, ew0.as_slice());
    let s1 = largest_remainder_split(r1, ew1.as_slice());
    let s2 = largest_remainder_split(r2, ew2.as_slice());
    let s3 = largest_remainder_split(r3, ew3.as_slice());
    let m = exclusive_idx.len();
    let mut k: usize = 0;
    while k < m
        invariant
            k <= m,
            m == exclusive_idx@.len(),
            m == exclusive_weights_prefix(ls, 0, n as int).len(),
            n == ls.len(),
            ls == lines@,
            invoice_fits(ls),
            prefix_valid(ls, n as int),
            invoice_level_fits(ls),
            computed@.len() == n,
            s0@.len() == m,
            s1@.len() == m,
            s2@.len() == m,
            s3@.len() == m,
            forall|j: int| 0 <= j < m ==> #[trigger] s0@[j] == split_spec(exclusive_rounded(ls, 0), exclusive_weights_prefix(ls, 0, n as int))[j],
            forall|j: int| 0 <= j < m ==> #[trigger] s1@[j] == split_spec(exclusive_rounded(ls, 1), exclusive_weights_prefix(ls, 1, n as int))[j],
            forall|j: int| 0 <= j < m ==> #[trigger] s2@[j] == split_spec(exclusive_rounded(ls, 2), exclusive_weights_prefix(ls, 2, n as int))[j],
            forall|j: int| 0 <= j < m ==> #[trigger] s3@[j] == split_spec(exclusive_rounded(ls, 3), exclusive_weights_prefix(ls, 3, n as int))[j],
            forall|j: int| 0 <= j < m ==> #[trigger] s0@[j] >= 0,
            forall|j: int| 0 <= j < m ==> #[trigger] s1@[j] >= 0,
            forall|j: int| 0 <= j < m ==> #[trigger] s2@[j] >= 0,
            forall|j: int| 0 <= j < m ==> #[trigger] s3@[j] >= 0,
            forall|j: int| 0 <= j < n ==> #[trigger] base_matches(ls[j], computed@[j]),
            forall|j: int|
                0 <= j < n && is_inclusive(ls[j]) ==> #[trigger] computed@[j].total_paise == net(ls[j]),
            forall|j: int|
                0 <= j < n && (is_inclusive(ls[j]) || exclusive_position(ls, j) < k)
                    ==> #[trigger] line_matches(ls, j, computed@[j]),
            forall|t: int|
                0 <= t < m ==> {
                    &&& #[trigger] exclusive_idx@[t] < n
                    &&& !is_inclusive(ls[exclusive_idx@[t] as int])
                    &&& exclusive_position(ls, exclusive_idx@[t] as int) == t
                },
        decreases m - k,
    {
        let idx = exclusive_idx[k];
        let ghost before = computed@;
        let mut lc = computed.remove(idx);
        proof {
            lemma_valid_line_facts(ls[idx as int]);
            lemma_exclusive_len(ls, 1, idx as int);
            lemma_exclusive_len(ls, 2, idx as int);
            lemma_exclusive_len(ls, 3, idx as int);
            assert(base_matches(ls[idx as int], lc));
            assert(line_total(ls, idx as int) <= i64::MAX);
        }
        set_component_value(&mut lc, TaxComponent::Cgst, s0[k]);
        set_component_value(&mut lc, TaxComponent::Sgst, s1[k]);
        set_component_value(&mut lc, TaxComponent::Igst, s2[k]);
        set_component_value(&mut lc, TaxComponent::Cess, s3[k]);
        lc.total_paise = lc.taxable_value_paise + lc.cgst_paise + lc.sgst_paise + lc.igst_paise
            + lc.cess_paise;
        computed.insert(idx, lc);
        proof {
            assert(computed@ =~= before.update(idx as int, lc));
            assert(line_matches(ls, idx as int, lc));
            assert forall|j: int|
                0 <= j < n && (is_inclusive(ls[j]) || exclusive_position(ls, j) < k + 1)
                    implies #[trigger] line_matches(ls, j, computed@[j]) by {
                if j != idx as int {
                    assert(computed@[j] == before[j]);
                    if !is_inclusive(ls[j]) && exclusive_position(ls, j) == k {
                        assert(false) by {
                            if j < idx as int {
                                lemma_position_monotone(ls, j, idx as int);
                            } else {
                                lemma_position_monotone(ls, idx as int, j);
                            }
                        }
                    }
                }
            }
        }
        k += 1;
    }
    proof {
        assert forall|j: int| 0 <= j < n implies #[trigger] line_matches(ls, j, computed@[j]) by {
            if !is_inclusive(ls[j]) {
                lemma_position_monotone(ls, j, n as int);
            }
        }
        assert(component_total(ls, 0) <= pre_round(ls)) by {
            lemma_prefix_facts(ls, 0, n as int);
        }
    }
    let cgst = is0 + r0;
    let sgst = is1 + r1;
    let igst = is2 + r2;
    let cess = is3 + r3;
    let pre = taxable_sum + cgst + sgst + igst + cess;
    let grand_total = round_to_nearest_rupee(pre);
    let round_off = grand_total - pre;
    let totals = InvoiceTotals {
        subtotal_paise: subtotal,
        discount_paise: discount,
        taxable_value_paise: taxable_sum,
        cgst_paise: cgst,
        sgst_paise: sgst,
        igst_paise: igst,
        cess_paise: cess,
        round_off_paise: round_off,
        grand_total_paise: grand_total,
    };
    proof {
        lemma_component_sum(ls, computed@, 0, n as int, s0@);
        lemma_component_sum(ls, computed@, 1, n as int, s1@);
        lemma_component_sum(ls, computed@, 2, n as int, s2@);
        lemma_component_sum(ls, computed@, 3, n as int, s3@);
        if m == 0 {
            assert(r0 == 0 && r1 == 0 && r2 == 0 && r3 == 0);
        }
        assert forall|j: int| 0 <= j < n implies #[trigger] computed@[j].total_paise
            == computed@[j].taxable_value_paise + components_sum(computed@[j]) by {
            assert(line_matches(ls, j, computed@[j]));
        }
        assert forall|j: int|
            0 <= j < n && is_inclusive(ls[j]) implies #[trigger] computed@[j].total_paise
                == computed@[j].gross_paise - computed@[j].discount_paise by {
            assert(line_matches(ls, j, computed@[j]));
        }
    }
    Ok((computed, totals))
}

} // verus!
