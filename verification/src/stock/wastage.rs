//! Wastage: an append-only negative ledger entry. The quantity lost must be
//! positive and the reason must not be blank; stock never blocks the write.

use vstd::prelude::*;
use crate::error::{DbError, DbResult};
use crate::text::{is_blank, is_blank_spec};

verus! {

/// One wastage event as the caller submits it.
#[derive(Debug, Clone)]
pub struct NewWastageEntry {
    pub outlet_id: String,
    pub inventory_item_id: String,
    /// The magnitude lost, in micro-units.
    pub quantity_micro: i64,
    pub reason_code: String,
    pub note: Option<String>,
    pub occurred_at: String,
    pub created_by_user_id: Option<String>,
}

/// Checks a wastage request before anything is written, and returns the
/// ledger quantity it posts: the magnitude lost, negated.
pub fn wastage_quantity_applied(req: &NewWastageEntry) -> (r: DbResult<i64>)
    ensures
        match r {
            Ok(q) => req.quantity_micro > 0 && !is_blank_spec(req.reason_code@) && q == -req.quantity_micro,
            Err(e) => if req.quantity_micro <= 0 {
                e == DbError::WastageQuantityNotPositive { quantity_micro: req.quantity_micro }
            } else {
                is_blank_spec(req.reason_code@) && e == DbError::WastageReasonRequired
            },
        },
{
    if req.quantity_micro <= 0 {
        return Err(DbError::WastageQuantityNotPositive { quantity_micro: req.quantity_micro });
    }
    if is_blank(req.reason_code.as_str()) {
        return Err(DbError::WastageReasonRequired);
    }
    Ok(-req.quantity_micro)
}

} // verus!
