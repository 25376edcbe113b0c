//! The decisions inside one goods receipt. A receipt never blocks on a
//! purchase order: a missing order, an order that never reached this
//! outlet, an unknown supplier, an unlisted item and an over-delivery each
//! record a gap and the goods are accepted. A dangling header link is
//! stored empty and the id the operator gave survives in the gap.

use vstd::prelude::*;
use crate::error::{DbError, DbResult, InvalidInput};
use crate::text::opt_view;
use super::convert::GrnGapReason;

verus! {

/// One submitted receipt line.
#[derive(Debug, Clone)]
pub struct NewGrnLine {
    pub inventory_item_id: String,
    pub entered_purchase_unit: String,
    pub entered_quantity_micro: i64,
    /// The unit dimension the author declared; compared, never derived.
    pub quantity_dimension: String,
    pub purchase_price_paise: i64,
    pub purchase_order_line_id: Option<String>,
    pub batch_code: Option<String>,
    pub expiry_date: Option<String>,
}

/// One submitted goods receipt.
#[derive(Debug, Clone)]
pub struct NewGoodsReceiptNote {
    pub id: String,
    pub outlet_id: String,
    pub purchase_order_id: Option<String>,
    pub supplier_id: Option<String>,
    pub delivery_note_ref: Option<String>,
    pub received_at: String,
    pub received_by_user_id: String,
    pub notes: Option<String>,
    pub lines: Vec<NewGrnLine>,
}

/// Refuses a receipt with no lines, the one shape of receipt that is not a
/// delivery at all.
pub fn require_lines(req: &NewGoodsReceiptNote) -> (r: DbResult<()>)
    ensures
        match r {
            Ok(()) => req.lines.len() > 0,
            Err(e) => req.lines.len() == 0 && e == DbError::InvalidInput(
                InvalidInput::NoLines { document: "goods_receipt_note" },
            ),
        },
{
    if req.lines.len() == 0 {
        return Err(DbError::InvalidInput(InvalidInput::NoLines { document: "goods_receipt_note" }));
    }
    Ok(())
}

/// The recorded lines among the first `k` submitted ones, in order: each
/// line whose item this outlet stocks, as its index and its 1-based
/// `line_number` (its position among all submitted lines, so a skipped
/// line leaves a hole in the numbering).
pub open spec fn planned_lines(item_known: Seq<bool>, k: int) -> Seq<(usize, i64)>
    decreases k,
{
    if k <= 0 {
        seq![]
    } else if item_known[k - 1] {
        planned_lines(item_known, k - 1).push(((k - 1) as usize, k as i64))
    } else {
        planned_lines(item_known, k - 1)
    }
}

/// Which submitted lines become receipt lines, and under which line
/// number: every line whose item is stocked here, numbered by its position
/// among the submitted lines. A line whose item is not stocked is not
/// recorded (it becomes a header gap instead).
pub fn plan_grn_lines(item_known: &Vec<bool>) -> (r: Vec<(usize, i64)>)
    requires
        item_known@.len() <= i64::MAX,
    ensures
        r@ == planned_lines(item_known@, item_known@.len() as int),
{
    let n = item_known.len();
    let mut out: Vec<(usize, i64)> = Vec::new();
    let mut i: usize = 0;
    while i < n
        invariant
            i <= n,
            n == item_known@.len(),
            n <= i64::MAX,
            out@ == planned_lines(item_known@, i as int),
        decreases n - i,
    {
        if item_known[i] {
            let number = (i + 1) as i64;
            out.push((i, number));
        }
        i += 1;
    }
    out
}

/// The header links a receipt stores and the header-level gaps they raise.
#[derive(Debug, Clone)]
pub struct HeaderLinks {
    pub stored_supplier_id: Option<String>,
    pub stored_purchase_order_id: Option<String>,
    pub gaps: Vec<GrnGapReason>,
}

/// The header gaps, in the order they are recorded: the supplier's, then
/// the purchase order's.
pub open spec fn header_gaps_spec(
    supplier_id: Option<String>,
    supplier_known: bool,
    purchase_order_id: Option<String>,
    purchase_order_known: bool,
) -> Seq<GrnGapReason> {
    let s: Seq<GrnGapReason> = if supplier_id is Some && !supplier_known {
        seq![GrnGapReason::SupplierNotFound]
    } else {
        seq![]
    };
    match purchase_order_id {
        Some(_) => if purchase_order_known {
            s
        } else {
            s.push(GrnGapReason::PurchaseOrderNotFound)
        },
        None => s.push(GrnGapReason::NoPurchaseOrder),
    }
}

/// A link is stored when it names a row this outlet has, and stored empty
/// otherwise.
pub open spec fn stored_link(id: Option<String>, known: bool) -> Option<Seq<char>> {
    match id {
        Some(s) => if known { Some(s@) } else { None },
        None => None,
    }
}

/// Resolves the receipt header's links. `supplier_known` and
/// `purchase_order_known` say whether this outlet has a row for the id the
/// request names (they are ignored when the request names none).
pub fn resolve_header_links(
    req: &NewGoodsReceiptNote,
    supplier_known: bool,
    purchase_order_known: bool,
) -> (h: HeaderLinks)
    ensures
        opt_view(h.stored_supplier_id) == stored_link(req.supplier_id, supplier_known),
        opt_view(h.stored_purchase_order_id) == stored_link(req.purchase_order_id, purchase_order_known),
        h.gaps@ == header_gaps_spec(
            req.supplier_id,
            supplier_known,
            req.purchase_order_id,
            purchase_order_known,
        ),
{
    let mut gaps: Vec<GrnGapReason> = Vec::new();
    let stored_supplier_id = match &req.supplier_id {
        Some(s) => if supplier_known {
            Some(s.clone())
        } else {
            gaps.push(GrnGapReason::SupplierNotFound);
            None
        },
        None => None,
    };
    let stored_purchase_order_id = match &req.purchase_order_id {
        Some(p) => if purchase_order_known {
            Some(p.clone())
        } else {
            gaps.push(GrnGapReason::PurchaseOrderNotFound);
            None
        },
        None => {
            gaps.push(GrnGapReason::NoPurchaseOrder);
            None
        },
    };
    proof {
        assert(gaps@ =~= header_gaps_spec(
            req.supplier_id,
            supplier_known,
            req.purchase_order_id,
            purchase_order_known,
        ));
    }
    HeaderLinks { stored_supplier_id, stored_purchase_order_id, gaps }
}

/// `a + b`, clamped to the `i64` range.
pub open spec fn saturating_sum(a: int, b: int) -> int {
    if a + b > i64::MAX {
        i64::MAX as int
    } else if a + b < i64::MIN {
        i64::MIN as int
    } else {
        a + b
    }
}

/// Adds two `i64`s, clamping at the ends of the range.
pub fn saturating_add_i64(a: i64, b: i64) -> (r: i64)
    ensures
        r == saturating_sum(a as int, b as int),
{
    if b > 0 && a > i64::MAX - b {
        i64::MAX
    } else if b < 0 && a < i64::MIN - b {
        i64::MIN
    } else {
        a + b
    }
}

/// An over-delivery: with this line, more base units have arrived at this
/// outlet against the order line than it ordered. An order line with no
/// positive ordered quantity is never over-delivered.
pub open spec fn over_delivered_spec(ordered_base: i64, already_received: i64, received: i64) -> bool {
    ordered_base > 0 && saturating_sum(already_received as int, received as int) > ordered_base
}

/// Whether a line over-delivers, comparing base units on both sides and
/// counting only receipts at this outlet.
pub fn is_over_delivery(ordered_base: i64, already_received: i64, received: i64) -> (r: bool)
    ensures
        r == over_delivered_spec(ordered_base, already_received, received),
{
    let after = saturating_add_i64(already_received, received);
    ordered_base > 0 && after > ordered_base
}

/// How a receipt line matched the receipt's purchase order.
#[derive(Debug, Clone, Copy, PartialEq, Eq, Structural)]
pub enum PoMatch {
    /// The receipt stores no purchase order, so nothing is matched.
    NoOrder,
    /// The order does not list the item (or the named order line).
    LineNotFound,
    /// The order line was found; `over_delivered` is the comparison's
    /// outcome.
    Matched { over_delivered: bool },
}

/// The gaps one line records: its conversion's gaps, then the matching
/// outcome's.
pub open spec fn line_gaps_spec(conversion_gaps: Seq<GrnGapReason>, m: PoMatch) -> Seq<GrnGapReason> {
    match m {
        PoMatch::NoOrder => conversion_gaps,
        PoMatch::LineNotFound => conversion_gaps.push(GrnGapReason::PoLineNotFound),
        PoMatch::Matched { over_delivered } => if over_delivered {
            conversion_gaps.push(GrnGapReason::QuantityExceedsOrdered)
        } else {
            conversion_gaps
        },
    }
}

/// Lists the gaps one receipt line records.
pub fn line_gaps(conversion_gaps: &Vec<GrnGapReason>, m: PoMatch) -> (r: Vec<GrnGapReason>)
    ensures
        r@ == line_gaps_spec(conversion_gaps@, m),
{
    let mut out: Vec<GrnGapReason> = Vec::new();
    let n = conversion_gaps.len();
    let mut i: usize = 0;
    while i < n
        invariant
            i <= n,
            n == conversion_gaps@.len(),
            out@ == conversion_gaps@.subrange(0, i as int),
        decreases n - i,
    {
        out.push(conversion_gaps[i]);
        proof {
            assert(out@ =~= conversion_gaps@.subrange(0, i as int + 1));
        }
        i += 1;
    }
    proof {
        assert(out@ =~= conversion_gaps@);
    }
    match m {
        PoMatch::NoOrder => {},
        PoMatch::LineNotFound => out.push(GrnGapReason::PoLineNotFound),
        PoMatch::Matched { over_delivered } => if over_delivered {
            out.push(GrnGapReason::QuantityExceedsOrdered);
        },
    }
    out
}

/// What a receipt gap is attached to.
#[derive(Debug, Clone, Copy, PartialEq, Eq, Structural)]
pub enum GapSubject {
    /// The receipt header.
    Header,
    /// Submitted line `i`, whose item is not stocked here, so the line was
    /// not recorded; the gap is header-level and names the item in prose.
    UnstockedLine(usize),
    /// Recorded line `i`.
    Line(usize),
}

/// One gap a receipt records.
#[derive(Debug, Clone, Copy, PartialEq, Eq, Structural)]
pub struct ReceiptGap {
    pub subject: GapSubject,
    pub reason: GrnGapReason,
}

/// How one submitted line resolved: `None` when the item is not stocked
/// here, else its conversion's gaps and how it matched the order.
pub type LineOutcome = Option<(Vec<GrnGapReason>, PoMatch)>;

/// The header-level gaps, as receipt gaps.
pub open spec fn header_receipt_gaps(header: Seq<GrnGapReason>) -> Seq<ReceiptGap> {
    header.map_values(|r: GrnGapReason| ReceiptGap { subject: GapSubject::Header, reason: r })
}

/// One `NO_UNIT_CONVERSION` header gap per line among the first `k` whose
/// item is not stocked here, in line order.
pub open spec fn unknown_item_gaps(lines: Seq<LineOutcome>, k: int) -> Seq<ReceiptGap>
    decreases k,
{
    if k <= 0 {
        seq![]
    } else {
        let rest = unknown_item_gaps(lines, k - 1);
        if lines[k - 1] is None {
            rest.push(
                ReceiptGap { subject: GapSubject::UnstockedLine((k - 1) as usize), reason: GrnGapReason::NoUnitConversion },
            )
        } else {
            rest
        }
    }
}

/// The gaps of the resolved lines among the first `k`, each line's in
/// its own order, lines in order.
pub open spec fn resolved_line_gaps(lines: Seq<LineOutcome>, k: int) -> Seq<ReceiptGap>
    decreases k,
{
    if k <= 0 {
        seq![]
    } else {
        let rest = resolved_line_gaps(lines, k - 1);
        match lines[k - 1] {
            Some((conv, m)) => rest + line_gaps_spec(conv@, m).map_values(
                |r: GrnGapReason| ReceiptGap { subject: GapSubject::Line((k - 1) as usize), reason: r },
            ),
            None => rest,
        }
    }
}

/// Every gap a receipt records, in the order it records them: the header
/// links' gaps, then one per line whose item is not stocked here, then
/// each resolved line's gaps.
pub fn receipt_gap_plan(header: &Vec<GrnGapReason>, lines: &Vec<LineOutcome>) -> (r: Vec<ReceiptGap>)
    ensures
        r@ == header_receipt_gaps(header@) + unknown_item_gaps(lines@, lines@.len() as int)
            + resolved_line_gaps(lines@, lines@.len() as int),
{
    let mut out: Vec<ReceiptGap> = Vec::new();
    let mut h: usize = 0;
    while h < header.len()
        invariant
            h <= header@.len(),
            out@ == header_receipt_gaps(header@.take(h as int)),
        decreases header@.len() - h,
    {
        out.push(ReceiptGap { subject: GapSubject::Header, reason: header[h] });
        proof {
            assert(header_receipt_gaps(header@.take(h as int + 1)) =~= header_receipt_gaps(
                header@.take(h as int),
            ).push(ReceiptGap { subject: GapSubject::Header, reason: header@[h as int] }));
        }
        h += 1;
    }
    proof {
        assert(header@.take(header@.len() as int) =~= header@);
    }
    let ghost head = out@;
    let n = lines.len();
    let mut i: usize = 0;
    while i < n
        invariant
            i <= n,
            n == lines@.len(),
            out@ == head + unknown_item_gaps(lines@, i as int),
        decreases n - i,
    {
        if lines[i].is_none() {
            out.push(ReceiptGap { subject: GapSubject::UnstockedLine(i), reason: GrnGapReason::NoUnitConversion });
        }
        proof {
            assert(out@ =~= head + unknown_item_gaps(lines@, i as int + 1));
        }
        i += 1;
    }
    let ghost mid = out@;
    let mut j: usize = 0;
    while j < n
        invariant
            j <= n,
            n == lines@.len(),
            out@ == mid + resolved_line_gaps(lines@, j as int),
        decreases n - j,
    {
        if let Some((conv, m)) = &lines[j] {
            let gaps = line_gaps(conv, *m);
            let ghost before = out@;
            let mut k: usize = 0;
            while k < gaps.len()
                invariant
                    k <= gaps@.len(),
                    out@ == before + gaps@.take(k as int).map_values(
                        |r: GrnGapReason| ReceiptGap { subject: GapSubject::Line(j), reason: r },
                    ),
                decreases gaps@.len() - k,
            {
                out.push(ReceiptGap { subject: GapSubject::Line(j), reason: gaps[k] });
                proof {
                    assert(gaps@.take(k as int + 1).map_values(
                        |r: GrnGapReason| ReceiptGap { subject: GapSubject::Line(j), reason: r },
                    ) =~= gaps@.take(k as int).map_values(
                        |r: GrnGapReason| ReceiptGap { subject: GapSubject::Line(j), reason: r },
                    ).push(ReceiptGap { subject: GapSubject::Line(j), reason: gaps@[k as int] }));
                }
                k += 1;
            }
            proof {
                assert(gaps@.take(gaps@.len() as int) =~= gaps@);
                assert(out@ =~= mid + resolved_line_gaps(lines@, j as int + 1));
            }
        } else {
            proof {
                assert(out@ =~= mid + resolved_line_gaps(lines@, j as int + 1));
            }
        }
        j += 1;
    }
    proof {
        assert(out@ =~= header_receipt_gaps(header@) + unknown_item_gaps(lines@, lines@.len() as int)
            + resolved_line_gaps(lines@, lines@.len() as int));
    }
    out
}

/// Which submitted lines a receipt records: exactly the lines whose item is
/// stocked here, each once, in submitted order, each numbered by its
/// 1-based submitted position.
pub proof fn lemma_planned_lines_law(item_known: Seq<bool>)
    requires
        item_known.len() <= usize::MAX,
        item_known.len() <= i64::MAX,
    ensures
        forall|k: int|
            0 <= k < planned_lines(item_known, item_known.len() as int).len() ==> {
                let (i, number) = #[trigger] planned_lines(item_known, item_known.len() as int)[k];
                &&& (i as int) < item_known.len()
                &&& item_known[i as int]
                &&& number == i + 1
            },
        forall|k1: int, k2: int|
            0 <= k1 < k2 < planned_lines(item_known, item_known.len() as int).len() ==> (
            #[trigger] planned_lines(item_known, item_known.len() as int)[k1]).0 < (
            #[trigger] planned_lines(item_known, item_known.len() as int)[k2]).0,
        forall|i: int|
            0 <= i < item_known.len() && #[trigger] item_known[i] ==> exists|k: int|
                0 <= k < planned_lines(item_known, item_known.len() as int).len() && (
                #[trigger] planned_lines(item_known, item_known.len() as int)[k]).0 == i,
{
    lemma_planned_prefix(item_known, item_known.len() as int);
}

proof fn lemma_planned_prefix(item_known: Seq<bool>, m: int)
    requires
        0 <= m <= item_known.len(),
        m <= usize::MAX,
        m <= i64::MAX,
    ensures
        forall|k: int|
            0 <= k < planned_lines(item_known, m).len() ==> {
                let (i, number) = #[trigger] planned_lines(item_known, m)[k];
                &&& (i as int) < m
                &&& item_known[i as int]
                &&& number == i + 1
            },
        forall|k1: int, k2: int|
            0 <= k1 < k2 < planned_lines(item_known, m).len() ==> (#[trigger] planned_lines(item_known, m)[k1]).0
                < (#[trigger] planned_lines(item_known, m)[k2]).0,
        forall|i: int|
            0 <= i < m && #[trigger] item_known[i] ==> exists|k: int|
                0 <= k < planned_lines(item_known, m).len() && (#[trigger] planned_lines(item_known, m)[k]).0 == i,
    decreases m,
{
    if m > 0 {
        lemma_planned_prefix(item_known, m - 1);
        let a = planned_lines(item_known, m - 1);
        let p = planned_lines(item_known, m);
        if item_known[m - 1] {
            assert(((m - 1) as usize) as int == m - 1);
            assert((m as i64) as int == m);
            assert(p == a.push(((m - 1) as usize, m as i64)));
            assert forall|k1: int, k2: int| 0 <= k1 < k2 < p.len() implies (#[trigger] p[k1]).0 < (#[trigger] p[k2]).0 by {
                assert(p[k1] == a[k1]);
                if k2 < a.len() {
                    assert(p[k2] == a[k2]);
                }
            }
            assert forall|i: int| 0 <= i < m && #[trigger] item_known[i] implies exists|k: int|
                0 <= k < p.len() && (#[trigger] p[k]).0 == i by {
                if i == m - 1 {
                    assert(p[a.len() as int].0 == i);
                } else {
                    let k = choose|k: int| 0 <= k < a.len() && (#[trigger] a[k]).0 == i;
                    assert(p[k] == a[k]);
                }
            }
            assert forall|k: int| 0 <= k < p.len() implies {
                let (i, number) = #[trigger] p[k];
                &&& (i as int) < m
                &&& item_known[i as int]
                &&& number == i + 1
            } by {
                if k < a.len() {
                    assert(p[k] == a[k]);
                }
            }
        } else {
            assert(p == a);
        }
    }
}

/// The header of a receipt: a named supplier is stored when this outlet
/// knows it and otherwise stored empty with a `SUPPLIER_NOT_FOUND` gap; a
/// named order likewise with `PURCHASE_ORDER_NOT_FOUND`; no order at all
/// gives `NO_PURCHASE_ORDER`. No header link ever refuses the receipt.
pub proof fn lemma_header_law(
    supplier_id: Option<String>,
    supplier_known: bool,
    purchase_order_id: Option<String>,
    purchase_order_known: bool,
)
    ensures
        ({
            let g = header_gaps_spec(supplier_id, supplier_known, purchase_order_id, purchase_order_known);
            &&& g.contains(GrnGapReason::SupplierNotFound) <==> (supplier_id is Some && !supplier_known)
            &&& g.contains(GrnGapReason::PurchaseOrderNotFound) <==> (purchase_order_id is Some && !purchase_order_known)
            &&& g.contains(GrnGapReason::NoPurchaseOrder) <==> purchase_order_id is None
            &&& g.len() <= 2
        }),
        stored_link(supplier_id, supplier_known) is Some <==> (supplier_id is Some && supplier_known),
        supplier_known ==> (supplier_id matches Some(s) ==> stored_link(supplier_id, supplier_known) == Some(s@)),
{
    let g = header_gaps_spec(supplier_id, supplier_known, purchase_order_id, purchase_order_known);
    let s0: Seq<GrnGapReason> = if supplier_id is Some && !supplier_known {
        seq![GrnGapReason::SupplierNotFound]
    } else {
        seq![]
    };
    if supplier_id is Some && !supplier_known {
        assert(g[0] == GrnGapReason::SupplierNotFound);
    }
    match purchase_order_id {
        Some(_) => if !purchase_order_known {
            assert(g[g.len() - 1] == GrnGapReason::PurchaseOrderNotFound);
        },
        None => {
            assert(g[g.len() - 1] == GrnGapReason::NoPurchaseOrder);
        },
    }
    assert forall|r: GrnGapReason| #[trigger] g.contains(r) implies (r == GrnGapReason::SupplierNotFound
        && supplier_id is Some && !supplier_known) || (r == GrnGapReason::PurchaseOrderNotFound
        && purchase_order_id is Some && !purchase_order_known) || (r == GrnGapReason::NoPurchaseOrder
        && purchase_order_id is None) by {
        let k = choose|k: int| 0 <= k < g.len() && g[k] == r;
        if k < s0.len() {
            assert(g[k] == s0[k]);
        }
    }
}

/// Over-delivery compares base units at this outlet: an order line with no
/// positive ordered quantity is never over-delivered; otherwise a line
/// over-delivers exactly when what has now arrived (already received plus
/// this line) exceeds what was ordered, and receiving more never undoes it.
pub proof fn lemma_over_delivery_law(ordered: i64, already: i64, received: i64, more: i64)
    ensures
        ordered <= 0 ==> !over_delivered_spec(ordered, already, received),
        i64::MIN <= already + received <= i64::MAX ==> (over_delivered_spec(ordered, already, received) <==> (ordered
            > 0 && already + received > ordered)),
        more >= 0 && i64::MIN <= received + more <= i64::MAX && over_delivered_spec(ordered, already, received)
            ==> over_delivered_spec(ordered, already, (received + more) as i64),
{
}

} // verus!
