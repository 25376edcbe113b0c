//! Purchase returns and outbound stock transfers. Both post negative
//! ledger quantities, and there is no balance check: a negative balance is
//! a variance signal, not an error.

use vstd::prelude::*;
use crate::error::{DbError, DbResult, InvalidInput};
use crate::model::MAX_SAFE_INTEGER;

verus! {

/// What one outbound line is worth per base unit: the caller's stated
/// price when there is one (which must lie in `0..=2^53-1`), else the
/// outlet's weighted average cost, else zero.
pub open spec fn valuation_spec(caller_supplied: Option<i64>, average_cost: Option<i64>) -> Result<i64, DbError> {
    match caller_supplied {
        Some(stated) => if stated < 0 || stated > MAX_SAFE_INTEGER {
            Err(DbError::InvalidInput(InvalidInput::UnitCostOutOfRange { value: stated }))
        } else {
            Ok(stated)
        },
        None => match average_cost {
            Some(a) => Ok(a),
            None => Ok(0),
        },
    }
}

/// A stated price always wins and is never replaced by the average: it is
/// used as is when it lies in `0..=2^53-1` and refused otherwise; only
/// when no price is stated is the weighted average used, and an item
/// with no average is valued at zero.
pub proof fn lemma_valuation_law(caller_supplied: Option<i64>, average_cost: Option<i64>)
    ensures
        caller_supplied matches Some(p) ==> (0 <= p <= 9_007_199_254_740_991 <==> valuation_spec(
            caller_supplied,
            average_cost,
        ) == Ok::<i64, DbError>(p)),
        caller_supplied matches Some(p) ==> (valuation_spec(caller_supplied, average_cost) is Err <==> (p < 0 || p
            > 9_007_199_254_740_991)),
        caller_supplied is None ==> valuation_spec(caller_supplied, average_cost) == Ok::<i64, DbError>(
            match average_cost {
                Some(a) => a,
                None => 0,
            },
        ),
{
}

/// Values one outbound line. `average_cost` is the outlet's weighted
/// average for the item; it is read only when no price was stated.
pub fn valuation_paise(caller_supplied: Option<i64>, average_cost: Option<i64>) -> (r: DbResult<i64>)
    ensures
        r == valuation_spec(caller_supplied, average_cost),
{
    if let Some(stated) = caller_supplied {
        if stated < 0 || stated > MAX_SAFE_INTEGER {
            return Err(DbError::InvalidInput(InvalidInput::UnitCostOutOfRange { value: stated }));
        }
        return Ok(stated);
    }
    match average_cost {
        Some(a) => Ok(a),
        None => Ok(0),
    }
}

/// The ledger quantity an outbound line posts: stock leaves the outlet, so
/// the validated positive base quantity is negated exactly.
pub fn outbound_quantity_applied(base_quantity_micro: i64) -> (q: i64)
    requires
        0 < base_quantity_micro,
    ensures
        q == -base_quantity_micro,
        q < 0,
{
    -base_quantity_micro
}

/// Refuses a document with no lines.
pub fn require_some_lines(line_count: usize, document: &'static str) -> (r: DbResult<()>)
    ensures
        match r {
            Ok(()) => line_count > 0,
            Err(e) => line_count == 0 && e == DbError::InvalidInput(InvalidInput::NoLines { document }),
        },
{
    if line_count == 0 {
        return Err(DbError::InvalidInput(InvalidInput::NoLines { document }));
    }
    Ok(())
}

} // verus!
