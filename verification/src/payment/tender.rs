//! The rules a tender must pass before it is recorded, and what recording
//! it produces besides the payment row: a drawer movement for a cash tender
//! tied to a shift, and an allocation to an invoice.

use vstd::prelude::*;
use crate::error::{DbError, DbResult};
use crate::model::{NewCashMovement, NewPayment};
use crate::text::{opt_str_view, opt_view, str_eq};

verus! {

/// The outcome the forward-tender rules give. `invoice_grand_total` is the
/// named invoice's grand total (`None` when no such invoice exists) and
/// `already_settled` the net of the allocations already posted to it.
pub open spec fn forward_ok(
    amount: i64,
    invoice_named: bool,
    invoice_grand_total: Option<i64>,
    already_settled: i64,
) -> bool {
    &&& amount > 0
    &&& invoice_named ==> match invoice_grand_total {
        Some(t) => amount <= t - already_settled,
        None => false,
    }
}

/// Rejects a forward tender whose amount is not positive, and, when it
/// names an invoice, one whose invoice is unknown or that would take the
/// invoice past its remaining due (grand total less what is settled).
/// Naming no invoice skips the remaining-due rule.
pub fn validate_forward(
    new_payment: &NewPayment,
    invoice_id: Option<&str>,
    invoice_grand_total: Option<i64>,
    already_settled: i64,
) -> (r: DbResult<()>)
    requires
        new_payment.amount_paise > 0 && invoice_id is Some ==> (invoice_grand_total matches Some(t)
            ==> i64::MIN <= t - already_settled <= i64::MAX),
    ensures
        r is Ok <==> forward_ok(
            new_payment.amount_paise,
            invoice_id is Some,
            invoice_grand_total,
            already_settled,
        ),
        r matches Err(e) ==> {
            if new_payment.amount_paise <= 0 {
                e == DbError::ForwardPaymentAmountNotPositive { amount_paise: new_payment.amount_paise }
            } else {
                match invoice_grand_total {
                    None => e matches DbError::InvoiceNotFoundForPayment { invoice_id: s } && Some(s@)
                        == opt_str_view(invoice_id),
                    Some(t) => e matches DbError::ForwardPaymentExceedsRemainingDue {
                        invoice_id: s,
                        requested_paise: a,
                        remaining_paise: rem,
                    } && Some(s@) == opt_str_view(invoice_id) && a == new_payment.amount_paise && rem
                        == t - already_settled,
                }
            }
        },
{
    if new_payment.amount_paise <= 0 {
        return Err(DbError::ForwardPaymentAmountNotPositive { amount_paise: new_payment.amount_paise });
    }
    if let Some(id) = invoice_id {
        let total = match invoice_grand_total {
            Some(t) => t,
            None => return Err(DbError::InvoiceNotFoundForPayment { invoice_id: id.to_owned() }),
        };
        let remaining = total - already_settled;
        if new_payment.amount_paise > remaining {
            return Err(
                DbError::ForwardPaymentExceedsRemainingDue {
                    invoice_id: id.to_owned(),
                    requested_paise: new_payment.amount_paise,
                    remaining_paise: remaining,
                },
            );
        }
    }
    Ok(())
}

/// The sum of a sequence of amounts.
pub open spec fn sum_amounts(s: Seq<i64>) -> int
    decreases s.len(),
{
    if s.len() == 0 {
        0
    } else {
        sum_amounts(s.drop_last()) + s.last()
    }
}

/// Every running total of `s` fits an `i64`.
pub open spec fn running_sums_fit(s: Seq<i64>) -> bool {
    forall|k: int| 0 <= k <= s.len() ==> i64::MIN <= #[trigger] sum_amounts(s.take(k)) <= i64::MAX
}

/// What remains to be reversed of an original payment of `original`
/// after the reversals `reversals` (all non-positive).
pub open spec fn reversal_remaining(original: i64, reversals: Seq<i64>) -> int {
    original + sum_amounts(reversals)
}

/// The reversal rules pass for `amount` against an original of
/// `original` (`None` when no such payment exists) already reversed by
/// `reversals`.
pub open spec fn reversal_ok(amount: i64, original: Option<i64>, reversals: Seq<i64>) -> bool {
    &&& amount <= 0
    &&& original matches Some(o)
    &&& reversal_remaining(o, reversals) > 0
    &&& -amount <= reversal_remaining(o, reversals)
}

/// Sums the reversal amounts already posted against one payment.
pub fn sum_reversals(amounts: &Vec<i64>) -> (r: i64)
    requires
        running_sums_fit(amounts@),
    ensures
        r == sum_amounts(amounts@),
{
    let n = amounts.len();
    let mut total: i64 = 0;
    let mut i: usize = 0;
    while i < n
        invariant
            i <= n,
            n == amounts@.len(),
            running_sums_fit(amounts@),
            total == sum_amounts(amounts@.take(i as int)),
        decreases n - i,
    {
        proof {
            assert(amounts@.take(i as int + 1).drop_last() =~= amounts@.take(i as int));
            assert(i64::MIN <= sum_amounts(amounts@.take(i as int + 1)) <= i64::MAX);
        }
        total = total + amounts[i];
        i += 1;
    }
    proof {
        assert(amounts@.take(n as int) =~= amounts@);
    }
    total
}

/// Rejects a reversal with a positive amount, one whose original payment
/// is unknown, one against an original already fully reversed, and one
/// that would reverse more than remains. `original_amount` is the original
/// payment's amount and `existing_reversals` the amounts of the reversals
/// already posted against it.
pub fn validate_reversal(
    new_payment: &NewPayment,
    reverses_payment_id: &str,
    original_amount: Option<i64>,
    existing_reversals: &Vec<i64>,
) -> (r: DbResult<()>)
    requires
        new_payment.amount_paise <= 0 && original_amount is Some ==> {
            &&& running_sums_fit(existing_reversals@)
            &&& i64::MIN <= reversal_remaining(original_amount.unwrap(), existing_reversals@) <= i64::MAX
        },
        new_payment.amount_paise <= 0 && original_amount is Some && reversal_remaining(
            original_amount.unwrap(),
            existing_reversals@,
        ) > 0 ==> new_payment.amount_paise > i64::MIN,
    ensures
        r is Ok <==> reversal_ok(new_payment.amount_paise, original_amount, existing_reversals@),
        r matches Err(e) ==> {
            if new_payment.amount_paise > 0 {
                e matches DbError::ReversalAmountNotNonPositive { reverses_payment_id: s, amount_paise: a }
                    && s@ == reverses_payment_id@ && a == new_payment.amount_paise
            } else {
                match original_amount {
                    None => e matches DbError::ReversedPaymentNotFound { payment_id: s } && s@
                        == reverses_payment_id@,
                    Some(o) => if reversal_remaining(o, existing_reversals@) <= 0 {
                        e matches DbError::PaymentAlreadyFullyReversed { payment_id: s } && s@
                            == reverses_payment_id@
                    } else {
                        e matches DbError::ReversalExceedsRemaining {
                            payment_id: s,
                            requested_paise: q,
                            remaining_paise: rem,
                        } && s@ == reverses_payment_id@ && q == -new_payment.amount_paise && rem
                            == reversal_remaining(o, existing_reversals@)
                    },
                }
            }
        },
{
    if new_payment.amount_paise > 0 {
        return Err(
            DbError::ReversalAmountNotNonPositive {
                reverses_payment_id: reverses_payment_id.to_owned(),
                amount_paise: new_payment.amount_paise,
            },
        );
    }
    let original = match original_amount {
        Some(o) => o,
        None => return Err(
            DbError::ReversedPaymentNotFound { payment_id: reverses_payment_id.to_owned() },
        ),
    };
    let already_reversed = sum_reversals(existing_reversals);
    let remaining = original + already_reversed;
    if remaining <= 0 {
        return Err(DbError::PaymentAlreadyFullyReversed { payment_id: reverses_payment_id.to_owned() });
    }
    let requested = -new_payment.amount_paise;
    if requested > remaining {
        return Err(
            DbError::ReversalExceedsRemaining {
                payment_id: reverses_payment_id.to_owned(),
                requested_paise: requested,
                remaining_paise: remaining,
            },
        );
    }
    Ok(())
}

/// Reversals accepted one after another never reverse more than the
/// original: when each reversal passed the rules against those before it,
/// what remains to be reversed of a forward payment is never negative.
pub proof fn lemma_reversals_never_exceed_original(original: i64, reversals: Seq<i64>)
    requires
        original > 0,
        forall|k: int|
            0 <= k < reversals.len() ==> reversal_ok(
                #[trigger] reversals[k],
                Some(original),
                reversals.take(k),
            ),
    ensures
        reversal_remaining(original, reversals) >= 0,
    decreases reversals.len(),
{
    if reversals.len() > 0 {
        let k = reversals.len() - 1;
        assert(reversal_ok(reversals[k], Some(original), reversals.take(k)));
        assert(reversals.take(k) =~= reversals.drop_last());
        assert(reversals.last() == reversals[k]);
    }
}

/// Split tenders stay legal: positive tenders that together settle no more
/// than the invoice's remaining due each pass the forward rules in turn,
/// each checked against what the tenders before it settled.
pub proof fn lemma_split_tenders_each_pass(grand_total: i64, settled: i64, tenders: Seq<i64>)
    requires
        forall|k: int| 0 <= k < tenders.len() ==> #[trigger] tenders[k] > 0,
        settled + sum_amounts(tenders) <= grand_total,
    ensures
        forall|k: int|
            0 <= k < tenders.len() ==> forward_ok(
                #[trigger] tenders[k],
                true,
                Some(grand_total),
                (settled + sum_amounts(tenders.take(k))) as i64,
            ),
    decreases tenders.len(),
{
    if tenders.len() > 0 {
        let init = tenders.drop_last();
        lemma_sum_positive(init);
        lemma_split_tenders_each_pass(grand_total, settled, init);
        assert forall|k: int|
            0 <= k < tenders.len() implies forward_ok(
            #[trigger] tenders[k],
            true,
            Some(grand_total),
            (settled + sum_amounts(tenders.take(k))) as i64,
        ) by {
            if k < tenders.len() - 1 {
                assert(tenders.take(k) =~= init.take(k));
                assert(init[k] == tenders[k]);
            } else {
                assert(tenders.take(k) =~= init);
                assert(tenders.last() == tenders[k]);
            }
        }
    }
}

/// A reversal restores headroom: lowering what is settled against an
/// invoice (a reversal's allocation is non-positive) never turns an
/// acceptable forward tender into a refused one.
pub proof fn lemma_reversal_restores_headroom(
    amount: i64,
    grand_total: i64,
    settled: i64,
    reversal_allocation: i64,
)
    requires
        reversal_allocation <= 0,
        i64::MIN <= settled + reversal_allocation,
        forward_ok(amount, true, Some(grand_total), settled),
    ensures
        forward_ok(amount, true, Some(grand_total), (settled + reversal_allocation) as i64),
{
}

/// Allocations to one invoice never pass its grand total across calls:
/// starting at or below it, each accepted call adds either a forward
/// tender that passed the rules against what was settled before it, or a
/// reversal's allocation (never positive), so what is settled stays at or
/// below the grand total after every call.
pub proof fn lemma_allocations_stay_within_total(grand_total: i64, settled: i64, steps: Seq<i64>)
    requires
        settled <= grand_total,
        forall|k: int|
            0 <= k <= steps.len() ==> i64::MIN <= #[trigger] (settled + sum_amounts(steps.take(k)))
                <= i64::MAX,
        forall|k: int|
            0 <= k < steps.len() ==> #[trigger] steps[k] <= 0 || forward_ok(
                steps[k],
                true,
                Some(grand_total),
                (settled + sum_amounts(steps.take(k))) as i64,
            ),
    ensures
        forall|k: int| 0 <= k <= steps.len() ==> #[trigger] (settled + sum_amounts(steps.take(k))) <= grand_total,
    decreases steps.len(),
{
    if steps.len() > 0 {
        let init = steps.drop_last();
        let n = steps.len() - 1;
        assert forall|k: int| 0 <= k <= init.len() implies init.take(k) =~= steps.take(k) by {}
        assert forall|k: int| 0 <= k <= init.len() implies i64::MIN <= #[trigger] (settled + sum_amounts(
            init.take(k),
        )) <= i64::MAX by {
            assert(init.take(k) =~= steps.take(k));
        }
        assert forall|k: int|
            0 <= k < init.len() implies #[trigger] init[k] <= 0 || forward_ok(
            init[k],
            true,
            Some(grand_total),
            (settled + sum_amounts(init.take(k))) as i64,
        ) by {
            assert(init.take(k) =~= steps.take(k));
            assert(init[k] == steps[k]);
        }
        lemma_allocations_stay_within_total(grand_total, settled, init);
        assert forall|k: int| 0 <= k <= steps.len() implies #[trigger] (settled + sum_amounts(steps.take(k)))
            <= grand_total by {
            if k <= n {
                assert(init.take(k) =~= steps.take(k));
                assert(settled + sum_amounts(init.take(k)) <= grand_total);
            } else {
                assert(steps.take(k) =~= steps);
                assert(steps.take(n) =~= init);
                assert(init.take(n) =~= init);
                assert(settled + sum_amounts(init.take(n)) <= grand_total);
                assert(steps[n] <= 0 || forward_ok(steps[n], true, Some(grand_total), (settled + sum_amounts(steps.take(n))) as i64));
                assert(sum_amounts(steps) == sum_amounts(init) + steps[n]);
            }
        }
    } else {
        assert forall|k: int| 0 <= k <= steps.len() implies #[trigger] (settled + sum_amounts(steps.take(k)))
            <= grand_total by {
            assert(steps.take(k) =~= Seq::<i64>::empty());
        }
    }
}

/// The tender rules in full: a forward tender must be positive and, when
/// it names an invoice, that invoice must exist and the tender must not
/// exceed its grand total less what is already settled; a reversal must be
/// zero or negative, its original must exist and not yet be fully
/// reversed, and it may reverse at most what remains (the original plus
/// the reversals already posted).
pub proof fn lemma_tender_rules(
    amount: i64,
    invoice_named: bool,
    grand_total: Option<i64>,
    settled: i64,
    original: Option<i64>,
    reversals: Seq<i64>,
)
    ensures
        forward_ok(amount, invoice_named, grand_total, settled) <==> (amount > 0 && (invoice_named ==> (
        grand_total is Some && amount + settled <= grand_total.unwrap()))),
        reversal_ok(amount, original, reversals) <==> (amount <= 0 && original is Some && original.unwrap()
            + sum_amounts(reversals) > 0 && -amount <= original.unwrap() + sum_amounts(reversals)),
        sum_amounts(Seq::<i64>::empty()) == 0,
        reversals.len() > 0 ==> sum_amounts(reversals) == sum_amounts(reversals.drop_last()) + reversals.last(),
{
}

/// A sequence of positive amounts has a non-negative sum.
proof fn lemma_sum_positive(s: Seq<i64>)
    requires
        forall|k: int| 0 <= k < s.len() ==> #[trigger] s[k] > 0,
    ensures
        sum_amounts(s) >= 0,
    decreases s.len(),
{
    if s.len() > 0 {
        lemma_sum_positive(s.drop_last());
    }
}

/// The drawer movement a tender produces: a cash tender tied to a shift
/// posts `CASH_SALE` (forward) or `CASH_REFUND` (reversal) for the tender's
/// own signed amount; any other tender posts nothing. The payment link is
/// stamped once the payment row exists.
pub open spec fn movement_matches(m: NewCashMovement, p: NewPayment, movement_id: Seq<char>) -> bool {
    &&& p.cash_shift_id matches Some(sid) && m.cash_shift_id@ == sid@
    &&& m.id@ == movement_id
    &&& m.kind@ == (if p.reverses_payment_id is Some { "CASH_REFUND"@ } else { "CASH_SALE"@ })
    &&& m.amount_paise == p.amount_paise
    &&& m.reason is None
    &&& m.payment_id is None
    &&& m.created_by_user_id@ == p.created_by_user_id@
    &&& m.created_at@ == p.created_at@
}

/// The `cash_movement` a tender produces against its shift, if any.
pub fn cash_movement_for(new_payment: &NewPayment, movement_id: &str) -> (r: Option<NewCashMovement>)
    ensures
        match r {
            Some(m) => new_payment.method@ == "CASH"@ && movement_matches(m, *new_payment, movement_id@),
            None => new_payment.method@ != "CASH"@ || new_payment.cash_shift_id is None,
        },
{
    if !str_eq(new_payment.method.as_str(), "CASH") {
        return None;
    }
    let cash_shift_id = match &new_payment.cash_shift_id {
        Some(s) => s.clone(),
        None => return None,
    };
    let kind = if new_payment.reverses_payment_id.is_some() {
        "CASH_REFUND"
    } else {
        "CASH_SALE"
    };
    Some(
        NewCashMovement {
            id: movement_id.to_owned(),
            cash_shift_id,
            kind: kind.to_owned(),
            amount_paise: new_payment.amount_paise,
            reason: None,
            payment_id: None,
            created_by_user_id: new_payment.created_by_user_id.clone(),
            created_at: new_payment.created_at.clone(),
        },
    )
}

/// The single invoice a payment was allocated to, given the invoices of
/// its allocation rows: one row names the target; with none, or more than
/// one, there is no single target and a reversal posts no allocation.
pub fn single_allocation_target(invoice_ids: Vec<String>) -> (r: Option<String>)
    ensures
        match r {
            Some(s) => invoice_ids@.len() == 1 && s@ == invoice_ids@[0]@,
            None => invoice_ids@.len() != 1,
        },
{
    if invoice_ids.len() == 1 {
        let mut v = invoice_ids;
        v.pop()
    } else {
        None
    }
}

/// The invoice a recorded tender is allocated to: a forward tender to the
/// invoice the caller named, a reversal to the single invoice its original
/// payment was allocated to (never to one the caller names).
pub fn allocation_target(
    new_payment: &NewPayment,
    invoice_id: Option<&str>,
    original_invoice_id: Option<String>,
) -> (r: Option<String>)
    ensures
        match new_payment.reverses_payment_id {
            None => opt_view(r) == opt_str_view(invoice_id),
            Some(_) => opt_view(r) == opt_view(original_invoice_id),
        },
{
    match &new_payment.reverses_payment_id {
        None => match invoice_id {
            Some(id) => Some(id.to_owned()),
            None => None,
        },
        Some(_) => original_invoice_id,
    }
}

} // verus!
