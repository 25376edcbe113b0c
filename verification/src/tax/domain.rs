//! The tax engine's domain: components, pricing modes, resolved rates, the
//! line handed to the engine and the line and invoice figures it returns.

use vstd::prelude::*;
use crate::error::{DbError, DbResult, InvalidInput};
use crate::text::str_eq;

verus! {

/// One tax component. Rates are integer basis points (2.5% = 250).
#[derive(Debug, Clone, Copy, PartialEq, Eq, Hash, Structural)]
pub enum TaxComponent {
    Cgst,
    Sgst,
    Igst,
    Cess,
}

/// The stored spelling of a component.
pub open spec fn component_name(c: TaxComponent) -> Seq<char> {
    match c {
        TaxComponent::Cgst => "CGST"@,
        TaxComponent::Sgst => "SGST"@,
        TaxComponent::Igst => "IGST"@,
        TaxComponent::Cess => "CESS"@,
    }
}

/// The fixed iteration order of components: CGST, SGST, IGST, then CESS.
pub open spec fn component_at(c: int) -> TaxComponent {
    if c == 0 {
        TaxComponent::Cgst
    } else if c == 1 {
        TaxComponent::Sgst
    } else if c == 2 {
        TaxComponent::Igst
    } else {
        TaxComponent::Cess
    }
}

/// Position of a component in the fixed order.
pub open spec fn component_index(c: TaxComponent) -> int {
    match c {
        TaxComponent::Cgst => 0,
        TaxComponent::Sgst => 1,
        TaxComponent::Igst => 2,
        TaxComponent::Cess => 3,
    }
}

/// The `c`-th component of the fixed order CGST, SGST, IGST, CESS.
pub fn component_order_at(c: usize) -> (t: TaxComponent)
    requires
        c < 4,
    ensures
        t == component_at(c as int),
        component_index(t) == c,
{
    if c == 0 {
        TaxComponent::Cgst
    } else if c == 1 {
        TaxComponent::Sgst
    } else if c == 2 {
        TaxComponent::Igst
    } else {
        TaxComponent::Cess
    }
}

impl TaxComponent {
    /// The stored spelling: `CGST`, `SGST`, `IGST` or `CESS`.
    pub fn as_str(&self) -> (s: &'static str)
        ensures
            s@ == component_name(*self),
    {
        match self {
            TaxComponent::Cgst => "CGST",
            TaxComponent::Sgst => "SGST",
            TaxComponent::Igst => "IGST",
            TaxComponent::Cess => "CESS",
        }
    }

    /// Parses a stored component string; anything but the four spellings
    /// is a configuration error.
    pub fn parse(s: &str) -> (r: DbResult<TaxComponent>)
        ensures
            match r {
                Ok(c) => component_name(c) == s@,
                Err(e) => {
                    &&& s@ != "CGST"@
                    &&& s@ != "SGST"@
                    &&& s@ != "IGST"@
                    &&& s@ != "CESS"@
                    &&& e matches DbError::InvalidInput(InvalidInput::UnknownTaxComponent(t))
                    &&& t@ == s@
                },
            },
    {
        if str_eq(s, "CGST") {
            Ok(TaxComponent::Cgst)
        } else if str_eq(s, "SGST") {
            Ok(TaxComponent::Sgst)
        } else if str_eq(s, "IGST") {
            Ok(TaxComponent::Igst)
        } else if str_eq(s, "CESS") {
            Ok(TaxComponent::Cess)
        } else {
            Err(DbError::InvalidInput(InvalidInput::UnknownTaxComponent(s.to_owned())))
        }
    }
}

/// Whether the menu price already contains the tax.
#[derive(Debug, Clone, Copy, PartialEq, Eq, Structural)]
pub enum PricingMode {
    Inclusive,
    Exclusive,
}

/// The stored spelling of a pricing mode.
pub open spec fn pricing_mode_name(m: PricingMode) -> Seq<char> {
    match m {
        PricingMode::Inclusive => "INCLUSIVE"@,
        PricingMode::Exclusive => "EXCLUSIVE"@,
    }
}

impl PricingMode {
    /// The stored spelling: `INCLUSIVE` or `EXCLUSIVE`.
    pub fn as_str(&self) -> (s: &'static str)
        ensures
            s@ == pricing_mode_name(*self),
    {
        match self {
            PricingMode::Inclusive => "INCLUSIVE",
            PricingMode::Exclusive => "EXCLUSIVE",
        }
    }

    /// Parses a stored pricing mode string.
    pub fn parse(s: &str) -> (r: DbResult<PricingMode>)
        ensures
            match r {
                Ok(m) => pricing_mode_name(m) == s@,
                Err(e) => {
                    &&& s@ != "INCLUSIVE"@
                    &&& s@ != "EXCLUSIVE"@
                    &&& e matches DbError::InvalidInput(InvalidInput::UnknownPricingMode(t))
                    &&& t@ == s@
                },
            },
    {
        if str_eq(s, "INCLUSIVE") {
            Ok(PricingMode::Inclusive)
        } else if str_eq(s, "EXCLUSIVE") {
            Ok(PricingMode::Exclusive)
        } else {
            Err(DbError::InvalidInput(InvalidInput::UnknownPricingMode(s.to_owned())))
        }
    }
}

/// The stored spellings: the four components are `CGST`, `SGST`, `IGST`
/// and `CESS`, the pricing modes `INCLUSIVE` and `EXCLUSIVE`, and no two
/// share a spelling, so parsing a spelling gives back what wrote it.
pub proof fn lemma_stored_spellings(a: TaxComponent, b: TaxComponent, m: PricingMode, n: PricingMode)
    ensures
        component_name(TaxComponent::Cgst) == "CGST"@,
        component_name(TaxComponent::Sgst) == "SGST"@,
        component_name(TaxComponent::Igst) == "IGST"@,
        component_name(TaxComponent::Cess) == "CESS"@,
        component_name(a) == component_name(b) ==> a == b,
        pricing_mode_name(PricingMode::Inclusive) == "INCLUSIVE"@,
        pricing_mode_name(PricingMode::Exclusive) == "EXCLUSIVE"@,
        pricing_mode_name(m) == pricing_mode_name(n) ==> m == n,
{
    reveal_strlit("CGST");
    reveal_strlit("SGST");
    reveal_strlit("IGST");
    reveal_strlit("CESS");
    reveal_strlit("INCLUSIVE");
    reveal_strlit("EXCLUSIVE");
    assert("CGST"@[0] != "SGST"@[0]);
    assert("CGST"@[0] != "IGST"@[0]);
    assert("CGST"@[1] != "CESS"@[1]);
    assert("SGST"@[0] != "IGST"@[0]);
    assert("SGST"@[0] != "CESS"@[0]);
    assert("IGST"@[0] != "CESS"@[0]);
    assert("INCLUSIVE"@[0] != "EXCLUSIVE"@[0]);
}

/// One component's rate as resolved for a moment in time.
#[derive(Debug, Clone, Copy, PartialEq, Eq, Structural)]
pub struct ResolvedRate {
    pub component: TaxComponent,
    pub rate_bps: i64,
}

/// One billable line handed to the engine. Money fields are per unit.
#[derive(Debug, Clone)]
pub struct Line {
    pub order_item_id: String,
    pub description: String,
    pub hsn_sac: Option<String>,
    pub quantity: i64,
    /// Tax-inclusive or tax-exclusive depending on `pricing_mode`.
    pub unit_price_paise: i64,
    /// Subtracted from `unit_price_paise` before tax.
    pub discount_per_unit_paise: i64,
    pub tax_profile_id: String,
    pub pricing_mode: PricingMode,
    /// This line's resolved rates.
    pub rates: Vec<ResolvedRate>,
}

/// One computed invoice line.
#[derive(Debug, Clone)]
pub struct LineComputation {
    pub order_item_id: String,
    pub description: String,
    pub hsn_sac: Option<String>,
    pub quantity: i64,
    pub unit_price_paise: i64,
    pub gross_paise: i64,
    pub discount_paise: i64,
    pub taxable_value_paise: i64,
    pub tax_profile_id: String,
    pub cgst_rate_bps: i64,
    pub cgst_paise: i64,
    pub sgst_rate_bps: i64,
    pub sgst_paise: i64,
    pub igst_rate_bps: i64,
    pub igst_paise: i64,
    pub cess_rate_bps: i64,
    pub cess_paise: i64,
    pub total_paise: i64,
}

/// The invoice-level money summary.
#[derive(Debug, Clone, Copy, PartialEq, Eq)]
pub struct InvoiceTotals {
    pub subtotal_paise: i64,
    pub discount_paise: i64,
    pub taxable_value_paise: i64,
    pub cgst_paise: i64,
    pub sgst_paise: i64,
    pub igst_paise: i64,
    pub cess_paise: i64,
    pub round_off_paise: i64,
    pub grand_total_paise: i64,
}

/// The rate of the first entry of `rates` at or after `from` that names
/// `component`, `0` if none does.
pub open spec fn rate_from(rates: Seq<ResolvedRate>, component: TaxComponent, from: int) -> i64
    decreases rates.len() - from,
{
    if from < 0 || from >= rates.len() {
        0
    } else if rates[from].component == component {
        rates[from].rate_bps
    } else {
        rate_from(rates, component, from + 1)
    }
}

/// `component`'s rate within `rates`: the first entry naming it, `0` if
/// none does.
pub open spec fn rate_for_spec(rates: Seq<ResolvedRate>, component: TaxComponent) -> i64 {
    rate_from(rates, component, 0)
}

proof fn lemma_rate_from_first(rates: Seq<ResolvedRate>, c: TaxComponent, from: int, k: int)
    requires
        0 <= from <= k <= rates.len(),
        k < rates.len() ==> rates[k].component == c,
        forall|j: int| from <= j < k ==> rates[j].component != c,
    ensures
        rate_from(rates, c, from) == if k < rates.len() { rates[k].rate_bps } else { 0i64 },
    decreases k - from,
{
    if from < k {
        lemma_rate_from_first(rates, c, from + 1, k);
    }
}

/// Components come in the fixed order CGST, SGST, IGST, CESS, and a
/// component's rate on a line is the rate of the first entry naming it,
/// zero when no entry names it.
pub proof fn lemma_component_rate(rates: Seq<ResolvedRate>, c: TaxComponent, k: int)
    ensures
        component_at(0) == TaxComponent::Cgst && component_at(1) == TaxComponent::Sgst,
        component_at(2) == TaxComponent::Igst && component_at(3) == TaxComponent::Cess,
        0 <= k < rates.len() && rates[k].component == c && (forall|j: int| 0 <= j < k ==> rates[j].component != c)
            ==> rate_for_spec(rates, c) == rates[k].rate_bps,
        (forall|j: int| 0 <= j < rates.len() ==> rates[j].component != c) ==> rate_for_spec(rates, c) == 0,
{
    if 0 <= k < rates.len() && rates[k].component == c && (forall|j: int| 0 <= j < k ==> rates[j].component != c) {
        lemma_rate_from_first(rates, c, 0, k);
    }
    if forall|j: int| 0 <= j < rates.len() ==> rates[j].component != c {
        lemma_rate_from_first(rates, c, 0, rates.len() as int);
    }
}

/// `component`'s rate within `rates`, `0` if `rates` carries no rule for it.
pub fn rate_for(rates: &[ResolvedRate], component: TaxComponent) -> (r: i64)
    ensures
        r == rate_for_spec(rates@, component),
{
    let n = rates.len();
    let mut i: usize = 0;
    while i < n
        invariant
            i <= n,
            n == rates@.len(),
            rate_from(rates@, component, 0) == rate_from(rates@, component, i as int),
        decreases n - i,
    {
        if rates[i].component == component {
            return rates[i].rate_bps;
        }
        i += 1;
    }
    0
}

/// Sum of the first `k` rates.
pub open spec fn rate_prefix_sum(rates: Seq<ResolvedRate>, k: int) -> int
    decreases k,
{
    if k <= 0 {
        0
    } else {
        rate_prefix_sum(rates, k - 1) + rates[k - 1].rate_bps
    }
}

/// Sum of every rate.
pub open spec fn rate_sum_spec(rates: Seq<ResolvedRate>) -> int {
    rate_prefix_sum(rates, rates.len() as int)
}

/// Every running sum of the rates stays inside `i64`.
pub open spec fn rate_sums_fit(rates: Seq<ResolvedRate>) -> bool {
    forall|k: int| 0 <= k <= rates.len() ==> i64::MIN <= #[trigger] rate_prefix_sum(rates, k) <= i64::MAX
}

/// The total of every rate on a line.
pub fn sum_rate_bps(rates: &[ResolvedRate]) -> (s: i64)
    requires
        rate_sums_fit(rates@),
    ensures
        s == rate_sum_spec(rates@),
{
    let n = rates.len();
    let mut sum: i64 = 0;
    let mut i: usize = 0;
    while i < n
        invariant
            i <= n,
            n == rates@.len(),
            rate_sums_fit(rates@),
            sum == rate_prefix_sum(rates@, i as int),
        decreases n - i,
    {
        assert(i64::MIN <= rate_prefix_sum(rates@, i as int + 1) <= i64::MAX);
        sum = sum + rates[i].rate_bps;
        i += 1;
    }
    sum
}

proof fn lemma_rate_prefix_push(rates: Seq<ResolvedRate>, r: ResolvedRate, k: int)
    requires
        0 <= k <= rates.len(),
    ensures
        rate_prefix_sum(rates.push(r), k) == rate_prefix_sum(rates, k),
    decreases k,
{
    if k > 0 {
        lemma_rate_prefix_push(rates, r, k - 1);
        assert(rates.push(r)[k - 1] == rates[k - 1]);
    }
}

/// A line's total rate counts every rate it carries, whatever the
/// component: no rates total zero, and one more rate adds exactly its
/// basis points (a cess as much as a CGST).
pub proof fn lemma_rate_sum_counts_every_rate(rates: Seq<ResolvedRate>, r: ResolvedRate)
    ensures
        rate_sum_spec(Seq::<ResolvedRate>::empty()) == 0,
        rate_sum_spec(rates.push(r)) == rate_sum_spec(rates) + r.rate_bps,
{
    lemma_rate_prefix_push(rates, r, rates.len() as int);
    assert(rates.push(r)[rates.len() as int] == r);
}

/// The paise of component `c` on a computed line.
pub open spec fn component_value_spec(lc: LineComputation, c: TaxComponent) -> i64 {
    match c {
        TaxComponent::Cgst => lc.cgst_paise,
        TaxComponent::Sgst => lc.sgst_paise,
        TaxComponent::Igst => lc.igst_paise,
        TaxComponent::Cess => lc.cess_paise,
    }
}

/// Reads component `c`'s paise on a computed line.
pub fn component_value(lc: &LineComputation, c: TaxComponent) -> (v: i64)
    ensures
        v == component_value_spec(*lc, c),
{
    match c {
        TaxComponent::Cgst => lc.cgst_paise,
        TaxComponent::Sgst => lc.sgst_paise,
        TaxComponent::Igst => lc.igst_paise,
        TaxComponent::Cess => lc.cess_paise,
    }
}

/// Writes component `c`'s paise on a computed line, leaving every other
/// field as it was.
pub fn set_component_value(lc: &mut LineComputation, c: TaxComponent, v: i64)
    ensures
        *final(lc) == (match c {
            TaxComponent::Cgst => LineComputation { cgst_paise: v, ..*old(lc) },
            TaxComponent::Sgst => LineComputation { sgst_paise: v, ..*old(lc) },
            TaxComponent::Igst => LineComputation { igst_paise: v, ..*old(lc) },
            TaxComponent::Cess => LineComputation { cess_paise: v, ..*old(lc) },
        }),
{
    match c {
        TaxComponent::Cgst => lc.cgst_paise = v,
        TaxComponent::Sgst => lc.sgst_paise = v,
        TaxComponent::Igst => lc.igst_paise = v,
        TaxComponent::Cess => lc.cess_paise = v,
    }
}

} // verus!
