//! Weighted average cost, derived from the stock ledger on every call and
//! never stored: the money recorded on costed inbound entries over the
//! quantity they brought in, rounded half away from zero exactly once.

use vstd::prelude::*;
use crate::inventory::{lemma_round_half_away_law, round_half_away, round_ratio_half_away_from_zero};
use super::convert::{in_i64, mul_wide, MICRO};

verus! {

/// The average in paise per base unit, from the summed quantity (micro
/// units) and summed value (paise) of this outlet's costed inbound ledger
/// entries for one item. `None` when nothing costed was ever received, or
/// when the average does not fit an `i64`.
pub open spec fn average_cost_spec(total_quantity_micro: i64, total_value_paise: i64) -> Option<int> {
    if total_quantity_micro <= 0 {
        None
    } else {
        let r = round_half_away(total_value_paise * MICRO, total_quantity_micro as int);
        if in_i64(r) { Some(r) } else { None }
    }
}

/// The weighted average cost of one item at one outlet, from the two sums
/// the ledger read produces. `None` is not zero: an item never bought here
/// has no average.
pub fn weighted_average_cost_paise(total_quantity_micro: i64, total_value_paise: i64) -> (r: Option<i64>)
    ensures
        match r {
            Some(v) => average_cost_spec(total_quantity_micro, total_value_paise) == Some(v as int),
            None => average_cost_spec(total_quantity_micro, total_value_paise) is None,
        },
{
    if total_quantity_micro <= 0 {
        return None;
    }
    let rounded = round_ratio_half_away_from_zero(
        mul_wide(total_value_paise, MICRO),
        total_quantity_micro as i128,
    );
    if rounded < i64::MIN as i128 || rounded > i64::MAX as i128 {
        return None;
    }
    Some(rounded as i64)
}

/// The average is the recorded money over the recorded quantity, in paise
/// per base unit (`10^6` micro-units), rounded half away from zero: with
/// no quantity received there is no average (never zero), and otherwise
/// the average `v` satisfies `q * (2v - 1) <= 2 * value * 10^6 < q * (2v
/// + 1)` for a non-negative value (mirrored for a negative one).
pub proof fn lemma_average_cost_law(total_quantity_micro: i64, total_value_paise: i64)
    ensures
        total_quantity_micro <= 0 ==> average_cost_spec(total_quantity_micro, total_value_paise) is None,
        average_cost_spec(total_quantity_micro, total_value_paise) matches Some(v) ==> {
            let q = total_quantity_micro as int;
            let x = total_value_paise * 1_000_000;
            &&& q > 0
            &&& x >= 0 ==> q * (2 * v - 1) <= 2 * x && 2 * x < q * (2 * v + 1)
            &&& x <= 0 ==> q * (2 * v - 1) < 2 * x && 2 * x <= q * (2 * v + 1)
        },
{
    if total_quantity_micro > 0 {
        lemma_round_half_away_law(total_value_paise * 1_000_000, total_quantity_micro as int);
    }
}

} // verus!
