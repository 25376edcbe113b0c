//! Physical stock counts and their variance. A count is mutable while
//! open and immutable once completed; completing it posts one adjustment
//! per line whose counted quantity differs from the expected quantity
//! snapshotted when the line was entered. The variance report is only
//! given for a completed count.

use vstd::prelude::*;
use crate::error::{DbError, DbResult};
use crate::inventory::{lemma_round_half_away_law, round_half_away, round_ratio_half_away_from_zero};
use crate::text::str_eq;

verus! {

/// Basis points per unit ratio.
pub const BPS_SCALE: i64 = 10_000i64;

/// One counted line.
#[derive(Debug, Clone)]
pub struct StockCountLine {
    pub id: String,
    pub stock_count_id: String,
    pub inventory_item_id: String,
    pub inventory_item_name: String,
    pub dimension: String,
    pub counted_quantity_micro: i64,
    /// The ledger's stock for the item when the line was entered.
    pub expected_quantity_micro: i64,
    pub note: Option<String>,
}

/// One line of a variance report.
#[derive(Debug, Clone)]
pub struct StockCountVarianceLine {
    pub inventory_item_id: String,
    pub inventory_item_name: String,
    pub dimension: String,
    pub counted_quantity_micro: i64,
    pub expected_quantity_micro: i64,
    pub variance_quantity_micro: i64,
    /// Variance over the magnitude of expected, in basis points; absent
    /// when nothing was expected.
    pub variance_percentage_bps: Option<i64>,
}

/// Requires the count (`status` is its stored status, `None` when there is
/// no such count) to be in status `wanted`: `OPEN` to enter lines or
/// complete it, `COMPLETED` to report on it.
pub fn require_count_status(stock_count_id: &str, status: Option<String>, wanted: &str) -> (r: DbResult<()>)
    ensures
        match r {
            Ok(()) => status matches Some(s) && s@ == wanted@,
            Err(e) => match status {
                None => e == DbError::NotFound("stock_count"),
                Some(s) => {
                    &&& s@ != wanted@
                    &&& e matches DbError::StockCountNotOpen { stock_count_id: id, status: st }
                    &&& id@ == stock_count_id@ && st@ == s@
                },
            },
        },
{
    let s = match status {
        Some(s) => s,
        None => return Err(DbError::NotFound("stock_count")),
    };
    if !str_eq(s.as_str(), wanted) {
        return Err(DbError::StockCountNotOpen { stock_count_id: stock_count_id.to_owned(), status: s });
    }
    Ok(())
}

/// Every line's variance fits an `i64`.
pub open spec fn variances_fit(lines: Seq<StockCountLine>) -> bool {
    forall|i: int|
        0 <= i < lines.len() ==> i64::MIN <= (#[trigger] lines[i]).counted_quantity_micro
            - lines[i].expected_quantity_micro <= i64::MAX
}

/// The variance of line `l`: counted less expected.
pub open spec fn line_variance(l: StockCountLine) -> int {
    l.counted_quantity_micro - l.expected_quantity_micro
}

/// The adjustments a completion posts, as (line index, quantity): one per
/// line with a non-zero variance, in line order.
pub open spec fn adjustments_spec(lines: Seq<StockCountLine>) -> Seq<(int, int)>
    decreases lines.len(),
{
    if lines.len() == 0 {
        seq![]
    } else {
        let init = adjustments_spec(lines.drop_last());
        let v = line_variance(lines.last());
        if v == 0 {
            init
        } else {
            init.push(((lines.len() - 1) as int, v))
        }
    }
}

/// A completed count posts exactly one adjustment for every line whose
/// counted quantity differs from its expected quantity, whatever either
/// quantity is (a line counted at zero included), each of `counted -
/// expected`, and none for a line that matches; adjustments come in line
/// order.
pub proof fn lemma_adjustments_cover_every_variance(lines: Seq<StockCountLine>)
    ensures
        forall|k: int|
            0 <= k < adjustments_spec(lines).len() ==> {
                let (i, q) = #[trigger] adjustments_spec(lines)[k];
                &&& 0 <= i < lines.len()
                &&& q == lines[i].counted_quantity_micro - lines[i].expected_quantity_micro
                &&& lines[i].counted_quantity_micro != lines[i].expected_quantity_micro
            },
        forall|k1: int, k2: int|
            0 <= k1 < k2 < adjustments_spec(lines).len() ==> (#[trigger] adjustments_spec(lines)[k1]).0
                < (#[trigger] adjustments_spec(lines)[k2]).0,
        forall|i: int|
            0 <= i < lines.len() && #[trigger] lines[i].counted_quantity_micro
                != lines[i].expected_quantity_micro ==> exists|k: int|
                0 <= k < adjustments_spec(lines).len() && (#[trigger] adjustments_spec(lines)[k]).0 == i,
    decreases lines.len(),
{
    if lines.len() > 0 {
        let init = lines.drop_last();
        lemma_adjustments_cover_every_variance(init);
        let a = adjustments_spec(init);
        let n = lines.len() - 1;
        assert forall|i: int| 0 <= i < n implies lines[i] == #[trigger] init[i] by {}
        let adj = adjustments_spec(lines);
        assert forall|k: int| 0 <= k < a.len() implies (#[trigger] a[k]).0 < n by {}
        if line_variance(lines.last()) == 0 {
            assert(adj == a);
            assert forall|i: int|
                0 <= i < lines.len() && #[trigger] lines[i].counted_quantity_micro
                    != lines[i].expected_quantity_micro implies exists|k: int|
                0 <= k < adj.len() && (#[trigger] adj[k]).0 == i by {
                assert(i != n);
                assert(init[i] == lines[i]);
                assert(init[i].counted_quantity_micro != init[i].expected_quantity_micro);
            }
        } else {
            assert(adj == a.push((n, line_variance(lines.last()))));
            assert forall|k: int|
                0 <= k < adj.len() implies {
                let (i, q) = #[trigger] adj[k];
                &&& 0 <= i < lines.len()
                &&& q == lines[i].counted_quantity_micro - lines[i].expected_quantity_micro
                &&& lines[i].counted_quantity_micro != lines[i].expected_quantity_micro
            } by {
                if k < a.len() {
                    assert(adj[k] == a[k]);
                    assert(init[a[k].0] == lines[a[k].0]);
                }
            }
            assert forall|k1: int, k2: int|
                0 <= k1 < k2 < adj.len() implies (#[trigger] adj[k1]).0 < (#[trigger] adj[k2]).0 by {
                assert(adj[k1] == a[k1]);
                if k2 < a.len() {
                    assert(adj[k2] == a[k2]);
                }
            }
            assert forall|i: int|
                0 <= i < lines.len() && #[trigger] lines[i].counted_quantity_micro
                    != lines[i].expected_quantity_micro implies exists|k: int|
                0 <= k < adj.len() && (#[trigger] adj[k]).0 == i by {
                if i == n {
                    assert(adj[a.len() as int].0 == i);
                } else {
                    assert(init[i] == lines[i]);
                    assert(init[i].counted_quantity_micro != init[i].expected_quantity_micro);
                    let k = choose|k: int| 0 <= k < a.len() && (#[trigger] a[k]).0 == i;
                    assert(adj[k] == a[k]);
                }
            }
        }
    }
}

/// The count adjustments a completed count posts: for each line whose
/// counted quantity differs from its expected one, the line's index and
/// the signed correction. No balance check is made.
pub fn count_adjustments(lines: &Vec<StockCountLine>) -> (r: Vec<(usize, i64)>)
    requires
        variances_fit(lines@),
    ensures
        r@.len() == adjustments_spec(lines@).len(),
        forall|k: int|
            0 <= k < r@.len() ==> (#[trigger] r@[k]).0 as int == adjustments_spec(lines@)[k].0
                && r@[k].1 as int == adjustments_spec(lines@)[k].1,
        forall|k: int|
            0 <= k < r@.len() ==> (#[trigger] r@[k]).0 < lines@.len() && r@[k].1
                == lines@[r@[k].0 as int].counted_quantity_micro - lines@[r@[k].0 as int].expected_quantity_micro
                && r@[k].1 != 0,
        forall|i: int|
            0 <= i < lines@.len() && #[trigger] lines@[i].counted_quantity_micro
                != lines@[i].expected_quantity_micro ==> exists|k: int| 0 <= k < r@.len() && r@[k].0 == i,
{
    proof {
        lemma_adjustments_cover_every_variance(lines@);
    }
    let n = lines.len();
    let mut out: Vec<(usize, i64)> = Vec::new();
    let mut i: usize = 0;
    while i < n
        invariant
            i <= n,
            n == lines@.len(),
            variances_fit(lines@),
            out@.len() == adjustments_spec(lines@.take(i as int)).len(),
            forall|k: int|
                0 <= k < out@.len() ==> (#[trigger] out@[k]).0 as int == adjustments_spec(
                    lines@.take(i as int),
                )[k].0 && out@[k].1 as int == adjustments_spec(lines@.take(i as int))[k].1,
        decreases n - i,
    {
        let line = &lines[i];
        proof {
            assert(lines@.take(i as int + 1).drop_last() =~= lines@.take(i as int));
            assert(lines@.take(i as int + 1).last() == lines@[i as int]);
            assert(i64::MIN <= lines@[i as int].counted_quantity_micro
                - lines@[i as int].expected_quantity_micro <= i64::MAX);
        }
        let variance = line.counted_quantity_micro - line.expected_quantity_micro;
        if variance != 0 {
            out.push((i, variance));
        }
        i += 1;
    }
    proof {
        assert(lines@.take(n as int) =~= lines@);
        let adj = adjustments_spec(lines@);
        assert forall|i: int|
            0 <= i < lines@.len() && #[trigger] lines@[i].counted_quantity_micro
                != lines@[i].expected_quantity_micro implies exists|k: int| 0 <= k < out@.len() && out@[k].0 == i by {
            let k = choose|k: int| 0 <= k < adj.len() && (#[trigger] adj[k]).0 == i;
            assert(out@[k].0 as int == adj[k].0);
        }
    }
    out
}

/// The variance percentage in basis points: the variance over the
/// magnitude of the expected quantity, rounded once, truncated to `i64`;
/// absent when nothing was expected.
pub open spec fn variance_bps_spec(counted: i64, expected: i64) -> Option<i64> {
    if expected == 0 {
        None
    } else {
        let magnitude = if expected < 0 { -expected } else { expected as int };
        Some(round_half_away((counted - expected) * BPS_SCALE, magnitude) as i64)
    }
}

/// The variance percentage is the variance over the magnitude of what was
/// expected, in basis points, rounded half away from zero: absent exactly
/// when nothing was expected, and otherwise a value `p` with `|e| * (2p -
/// 1) <= 2 * v * 10000 < |e| * (2p + 1)` for a non-negative variance `v`
/// (mirrored for a negative one), whenever it fits an `i64`.
pub proof fn lemma_variance_percentage_law(counted: i64, expected: i64)
    ensures
        variance_bps_spec(counted, expected) is None <==> expected == 0,
        expected != 0 ==> ({
            let m = if expected < 0 { -expected } else { expected as int };
            let x = (counted - expected) * 10000;
            let p = round_half_away(x, m);
            &&& i64::MIN <= p <= i64::MAX ==> variance_bps_spec(counted, expected) == Some(p as i64)
            &&& x >= 0 ==> m * (2 * p - 1) <= 2 * x && 2 * x < m * (2 * p + 1)
            &&& x <= 0 ==> m * (2 * p - 1) < 2 * x && 2 * x <= m * (2 * p + 1)
        }),
{
    if expected != 0 {
        let m = if expected < 0 { -expected } else { expected as int };
        lemma_round_half_away_law((counted - expected) * 10000, m);
    }
}

/// The variance line for one counted line.
pub fn variance_line(line: &StockCountLine) -> (v: StockCountVarianceLine)
    requires
        i64::MIN <= line.counted_quantity_micro - line.expected_quantity_micro <= i64::MAX,
        line.expected_quantity_micro > i64::MIN,
    ensures
        v.inventory_item_id@ == line.inventory_item_id@,
        v.inventory_item_name@ == line.inventory_item_name@,
        v.dimension@ == line.dimension@,
        v.counted_quantity_micro == line.counted_quantity_micro,
        v.expected_quantity_micro == line.expected_quantity_micro,
        v.variance_quantity_micro == line.counted_quantity_micro - line.expected_quantity_micro,
        v.variance_percentage_bps == variance_bps_spec(
            line.counted_quantity_micro,
            line.expected_quantity_micro,
        ),
{
    let variance = line.counted_quantity_micro - line.expected_quantity_micro;
    let bps = if line.expected_quantity_micro == 0 {
        None
    } else {
        let magnitude: i64 = if line.expected_quantity_micro < 0 {
            -line.expected_quantity_micro
        } else {
            line.expected_quantity_micro
        };
        proof {
            assert(-0x8000_0000_0000_0000 * 10_000 <= variance * 10_000 <= 0x7fff_ffff_ffff_ffff * 10_000)
                by (nonlinear_arith)
                requires
                    -0x8000_0000_0000_0000 <= variance <= 0x7fff_ffff_ffff_ffff,
            ;
        }
        let r = round_ratio_half_away_from_zero((variance as i128) * (BPS_SCALE as i128), magnitude as i128);
        Some(#[verifier::truncate] (r as i64))
    };
    StockCountVarianceLine {
        inventory_item_id: line.inventory_item_id.clone(),
        inventory_item_name: line.inventory_item_name.clone(),
        dimension: line.dimension.clone(),
        counted_quantity_micro: line.counted_quantity_micro,
        expected_quantity_micro: line.expected_quantity_micro,
        variance_quantity_micro: variance,
        variance_percentage_bps: bps,
    }
}

} // verus!
