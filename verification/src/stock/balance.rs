//! The bounded current-stock read. A sealed day stores the closing balance
//! of an item together with the high-water mark `through_entry_seq` it was
//! computed up to; the current balance is that closing balance plus every
//! ledger entry whose `entry_seq` is past the mark. Entries are selected by
//! sequence, never by business date, so an entry that arrives after its day
//! was sealed while still carrying that day's date is counted by the very
//! next read instead of vanishing.

use vstd::prelude::*;

verus! {

/// The quantities of the entries of `ledger` (pairs of `entry_seq` and
/// `quantity_applied_micro`) whose sequence is past `mark`.
pub open spec fn quantity_after(ledger: Seq<(i64, i64)>, mark: int) -> int
    decreases ledger.len(),
{
    if ledger.len() == 0 {
        0
    } else {
        quantity_after(ledger.drop_last(), mark) + if ledger.last().0 > mark {
            ledger.last().1 as int
        } else {
            0
        }
    }
}

/// The quantities of the entries of `ledger` whose sequence is at or
/// before `mark`: what a seal taken at that mark holds as its closing.
pub open spec fn quantity_through(ledger: Seq<(i64, i64)>, mark: int) -> int
    decreases ledger.len(),
{
    if ledger.len() == 0 {
        0
    } else {
        quantity_through(ledger.drop_last(), mark) + if ledger.last().0 <= mark {
            ledger.last().1 as int
        } else {
            0
        }
    }
}

/// The balance the whole ledger of an item adds up to.
pub open spec fn ledger_total(ledger: Seq<(i64, i64)>) -> int
    decreases ledger.len(),
{
    if ledger.len() == 0 {
        0
    } else {
        ledger_total(ledger.drop_last()) + ledger.last().1
    }
}

/// The bounded read: the latest seal's closing balance (`0` with mark `0`
/// when the item was never sealed) plus every entry past its mark.
pub open spec fn bounded_read(sealed: Option<(i64, i64)>, ledger: Seq<(i64, i64)>) -> int {
    let (closing, mark) = match sealed {
        Some(s) => s,
        None => (0i64, 0i64),
    };
    closing + quantity_after(ledger, mark as int)
}

/// The current balance of one item from its latest seal (closing balance
/// and mark, `None` when it was never sealed) and its ledger entries
/// (`entry_seq`, `quantity_applied_micro`, in any order; entries at or
/// before the mark are skipped). `None` when the balance does not fit in
/// an `i64`.
pub fn current_stock_micro(sealed: Option<(i64, i64)>, ledger: &Vec<(i64, i64)>) -> (r: Option<i64>)
    ensures
        match r {
            Some(q) => q == bounded_read(sealed, ledger@),
            None => !(i64::MIN <= bounded_read(sealed, ledger@) <= i64::MAX),
        },
{
    let (closing, mark) = match sealed {
        Some(s) => s,
        None => (0i64, 0i64),
    };
    let n = ledger.len();
    let mut acc: i128 = 0;
    let mut i: usize = 0;
    while i < n
        invariant
            n == ledger@.len(),
            i <= n,
            acc == quantity_after(ledger@.take(i as int), mark as int),
            -(i * 0x8000_0000_0000_0000) <= acc <= i * 0x7fff_ffff_ffff_ffff,
        decreases n - i,
    {
        let (seq, quantity) = ledger[i];
        proof {
            assert(ledger@.take(i as int + 1).drop_last() =~= ledger@.take(i as int));
        }
        if seq > mark {
            acc = acc + quantity as i128;
        }
        i += 1;
    }
    proof {
        assert(ledger@.take(n as int) =~= ledger@);
    }
    let total: i128 = closing as i128 + acc;
    if total < i64::MIN as i128 || total > i64::MAX as i128 {
        None
    } else {
        Some(total as i64)
    }
}

/// A seal holds the entries up to its mark and the read adds the ones past
/// it, so a read taken after a seal whose closing balance is the ledger up
/// to the mark gives the whole ledger back, whatever business date each
/// entry carries.
pub proof fn lemma_seal_then_read_is_the_whole_ledger(ledger: Seq<(i64, i64)>, closing: i64, mark: i64)
    requires
        closing == quantity_through(ledger, mark as int),
    ensures
        bounded_read(Some((closing, mark)), ledger) == ledger_total(ledger),
    decreases ledger.len(),
{
    lemma_through_plus_after(ledger, mark as int);
}

proof fn lemma_through_plus_after(ledger: Seq<(i64, i64)>, mark: int)
    ensures
        quantity_through(ledger, mark) + quantity_after(ledger, mark) == ledger_total(ledger),
    decreases ledger.len(),
{
    if ledger.len() > 0 {
        lemma_through_plus_after(ledger.drop_last(), mark);
    }
}

/// With no seal yet, the read is the whole ledger, provided every minted
/// sequence is positive (sequences start at 1).
pub proof fn lemma_unsealed_read_is_the_whole_ledger(ledger: Seq<(i64, i64)>)
    requires
        forall|k: int| 0 <= k < ledger.len() ==> #[trigger] ledger[k].0 > 0,
    ensures
        bounded_read(None, ledger) == ledger_total(ledger),
    decreases ledger.len(),
{
    if ledger.len() > 0 {
        let prefix = ledger.drop_last();
        assert forall|k: int| 0 <= k < prefix.len() implies #[trigger] prefix[k].0 > 0 by {
            assert(prefix[k] == ledger[k]);
        }
        lemma_unsealed_read_is_the_whole_ledger(prefix);
        assert(ledger.last() == ledger[ledger.len() - 1]);
    }
}

} // verus!
