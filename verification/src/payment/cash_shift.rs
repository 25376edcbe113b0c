//! Cash shift rules: one open shift per cashier and device, a close that
//! derives the expected cash from the shift's own movements and refuses a
//! non-zero variance without a reason, and paid-in/out movements signed by
//! their kind.

use vstd::prelude::*;
use crate::error::{DbError, DbResult, InvalidInput};
use crate::model::{CashShift, CloseCashShiftRequest, NewCashMovement, NewCashShift, PaidInOutRequest};
use crate::text::{is_blank, is_blank_spec, opt_view, str_eq, unicode_whitespace};

verus! {

/// Refuses to open a shift while the cashier already has one open on the
/// device; `existing_open_shift_id` is that shift's id, if any.
pub fn check_no_open_shift(new_shift: &NewCashShift, existing_open_shift_id: Option<String>) -> (r: DbResult<()>)
    ensures
        match r {
            Ok(()) => existing_open_shift_id is None,
            Err(e) => existing_open_shift_id matches Some(x) && e matches DbError::CashShiftAlreadyOpen {
                device_id: d,
                cashier_user_id: c,
                existing_shift_id: s,
            } && d@ == new_shift.device_id@ && c@ == new_shift.cashier_user_id@ && s@ == x@,
        },
{
    match existing_open_shift_id {
        Some(existing_shift_id) => Err(
            DbError::CashShiftAlreadyOpen {
                device_id: new_shift.device_id.clone(),
                cashier_user_id: new_shift.cashier_user_id.clone(),
                existing_shift_id,
            },
        ),
        None => Ok(()),
    }
}

/// The `OPENING_FLOAT` movement a newly opened shift posts: the stored
/// shift's opening cash, by its cashier, at its opening time.
pub fn opening_float_movement(
    stored: &CashShift,
    new_shift: &NewCashShift,
    movement_id: &str,
) -> (m: NewCashMovement)
    ensures
        m.id@ == movement_id@,
        m.cash_shift_id@ == stored.id@,
        m.kind@ == "OPENING_FLOAT"@,
        m.amount_paise == stored.opening_cash_paise,
        m.reason is None,
        m.payment_id is None,
        m.created_by_user_id@ == new_shift.cashier_user_id@,
        m.created_at@ == new_shift.opened_at@,
{
    NewCashMovement {
        id: movement_id.to_owned(),
        cash_shift_id: stored.id.clone(),
        kind: "OPENING_FLOAT".to_owned(),
        amount_paise: stored.opening_cash_paise,
        reason: None,
        payment_id: None,
        created_by_user_id: new_shift.cashier_user_id.clone(),
        created_at: new_shift.opened_at.clone(),
    }
}

/// The figures a close writes.
#[derive(Debug, Clone)]
pub struct ShiftClose {
    pub expected_cash_paise: i64,
    pub actual_cash_paise: i64,
    pub variance_paise: i64,
    /// Stored only with a non-zero variance.
    pub variance_reason: Option<String>,
}

/// The reason text counts: present and not whitespace only.
pub open spec fn reason_given(reason: Option<String>) -> bool {
    match reason {
        Some(s) => !is_blank_spec(s@),
        None => false,
    }
}

/// A variance reason counts only when one is given and holds something
/// other than whitespace; the paid-in/out kinds are exactly `PAID_IN` and
/// `PAID_OUT`.
pub proof fn lemma_close_and_paid_rules(reason: Option<String>, kind: Seq<char>)
    ensures
        reason_given(reason) <==> (reason matches Some(s) && exists|i: int|
            0 <= i < s@.len() && !unicode_whitespace(#[trigger] s@[i])),
        paid_kind_ok(kind) <==> (kind == "PAID_IN"@ || kind == "PAID_OUT"@),
{
}

/// Decides a close. `existing_status` is the shift's stored status (`None`
/// when no such shift exists) and `expected_cash_paise` the sum of the
/// shift's own posted movements. The variance is actual less expected; a
/// non-zero variance needs a reason, and a zero one stores none.
pub fn decide_close(
    req: &CloseCashShiftRequest,
    existing_status: Option<String>,
    expected_cash_paise: i64,
) -> (r: DbResult<ShiftClose>)
    requires
        existing_status matches Some(s) && s@ == "OPEN"@ ==> i64::MIN <= req.actual_cash_paise
            - expected_cash_paise <= i64::MAX,
    ensures
        match r {
            Ok(c) => {
                &&& existing_status matches Some(s) && s@ == "OPEN"@
                &&& c.expected_cash_paise == expected_cash_paise
                &&& c.actual_cash_paise == req.actual_cash_paise
                &&& c.variance_paise == req.actual_cash_paise - expected_cash_paise
                &&& c.variance_paise != 0 ==> reason_given(req.variance_reason)
                &&& opt_view(c.variance_reason) == (if c.variance_paise == 0 {
                    None
                } else {
                    opt_view(req.variance_reason)
                })
            },
            Err(e) => match existing_status {
                None => e matches DbError::CashShiftNotOpen { cash_shift_id: id, status: st } && id@
                    == req.cash_shift_id@ && st@ == "NOT_FOUND"@,
                Some(s) => if s@ != "OPEN"@ {
                    e matches DbError::CashShiftNotOpen { cash_shift_id: id, status: st } && id@
                        == req.cash_shift_id@ && st@ == s@
                } else {
                    &&& req.actual_cash_paise - expected_cash_paise != 0
                    &&& !reason_given(req.variance_reason)
                    &&& e matches DbError::CashVarianceReasonRequired {
                        cash_shift_id: id,
                        expected_paise: x,
                        actual_paise: a,
                        variance_paise: v,
                    }
                    &&& id@ == req.cash_shift_id@ && x == expected_cash_paise && a == req.actual_cash_paise
                        && v == req.actual_cash_paise - expected_cash_paise
                },
            },
        },
{
    let status = match existing_status {
        Some(s) => s,
        None => return Err(
            DbError::CashShiftNotOpen {
                cash_shift_id: req.cash_shift_id.clone(),
                status: "NOT_FOUND".to_owned(),
            },
        ),
    };
    if !str_eq(status.as_str(), "OPEN") {
        return Err(DbError::CashShiftNotOpen { cash_shift_id: req.cash_shift_id.clone(), status });
    }
    let variance_paise = req.actual_cash_paise - expected_cash_paise;
    if variance_paise != 0 {
        let blank = match &req.variance_reason {
            Some(s) => is_blank(s.as_str()),
            None => true,
        };
        if blank {
            return Err(
                DbError::CashVarianceReasonRequired {
                    cash_shift_id: req.cash_shift_id.clone(),
                    expected_paise: expected_cash_paise,
                    actual_paise: req.actual_cash_paise,
                    variance_paise,
                },
            );
        }
    }
    let variance_reason = if variance_paise == 0 {
        None
    } else {
        match &req.variance_reason {
            Some(s) => Some(s.clone()),
            None => None,
        }
    };
    Ok(
        ShiftClose {
            expected_cash_paise,
            actual_cash_paise: req.actual_cash_paise,
            variance_paise,
            variance_reason,
        },
    )
}

/// The kind is one of the two a paid-in/out request may carry.
pub open spec fn paid_kind_ok(kind: Seq<char>) -> bool {
    kind == "PAID_IN"@ || kind == "PAID_OUT"@
}

/// Decides a paid-in/out request: the kind must be `PAID_IN` or
/// `PAID_OUT`, the reason must not be blank, and the shift
/// (`shift_status`, `None` when unknown) must be open. The movement carries
/// the amount's magnitude, negated for `PAID_OUT`.
pub fn paid_in_out_movement(req: &PaidInOutRequest, shift_status: Option<String>) -> (r: DbResult<NewCashMovement>)
    requires
        paid_kind_ok(req.kind@) && !is_blank_spec(req.reason@) && (shift_status matches Some(s) && s@
            == "OPEN"@) ==> req.amount_paise > i64::MIN,
    ensures
        match r {
            Ok(m) => {
                &&& paid_kind_ok(req.kind@)
                &&& !is_blank_spec(req.reason@)
                &&& shift_status matches Some(s) && s@ == "OPEN"@
                &&& m.id@ == req.id@
                &&& m.cash_shift_id@ == req.cash_shift_id@
                &&& m.kind@ == req.kind@
                &&& m.amount_paise == (if req.kind@ == "PAID_OUT"@ {
                    -(if req.amount_paise < 0 { -req.amount_paise } else { req.amount_paise as int })
                } else {
                    if req.amount_paise < 0 { -req.amount_paise } else { req.amount_paise as int }
                })
                &&& m.reason matches Some(t) && t@ == req.reason@
                &&& m.payment_id is None
                &&& m.created_by_user_id@ == req.created_by_user_id@
                &&& m.created_at@ == req.created_at@
            },
            Err(e) => if !paid_kind_ok(req.kind@) {
                e matches DbError::InvalidInput(InvalidInput::PaidInOutKind(k)) && k@ == req.kind@
            } else if is_blank_spec(req.reason@) {
                e matches DbError::CashMovementReasonRequired { kind: k } && k@ == req.kind@
            } else {
                match shift_status {
                    None => e matches DbError::CashShiftNotOpen { cash_shift_id: id, status: st } && id@
                        == req.cash_shift_id@ && st@ == "NOT_FOUND"@,
                    Some(s) => {
                        &&& s@ != "OPEN"@
                        &&& e matches DbError::CashShiftNotOpen { cash_shift_id: id, status: st }
                        &&& id@ == req.cash_shift_id@ && st@ == s@
                    },
                }
            },
        },
{
    let is_in = str_eq(req.kind.as_str(), "PAID_IN");
    let is_out = str_eq(req.kind.as_str(), "PAID_OUT");
    if !is_in && !is_out {
        return Err(DbError::InvalidInput(InvalidInput::PaidInOutKind(req.kind.clone())));
    }
    if is_blank(req.reason.as_str()) {
        return Err(DbError::CashMovementReasonRequired { kind: req.kind.clone() });
    }
    let status = match shift_status {
        Some(s) => s,
        None => return Err(
            DbError::CashShiftNotOpen {
                cash_shift_id: req.cash_shift_id.clone(),
                status: "NOT_FOUND".to_owned(),
            },
        ),
    };
    if !str_eq(status.as_str(), "OPEN") {
        return Err(DbError::CashShiftNotOpen { cash_shift_id: req.cash_shift_id.clone(), status });
    }
    let magnitude: i64 = if req.amount_paise < 0 {
        -req.amount_paise
    } else {
        req.amount_paise
    };
    let signed_amount: i64 = if is_out {
        -magnitude
    } else {
        magnitude
    };
    Ok(
        NewCashMovement {
            id: req.id.clone(),
            cash_shift_id: req.cash_shift_id.clone(),
            kind: req.kind.clone(),
            amount_paise: signed_amount,
            reason: Some(req.reason.clone()),
            payment_id: None,
            created_by_user_id: req.created_by_user_id.clone(),
            created_at: req.created_at.clone(),
        },
    )
}

} // verus!
