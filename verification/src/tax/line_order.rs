//! The invoice totals do not depend on the order of the lines: every total
//! is a sum over the lines of a value each line determines on its own, and
//! the exclusive components are rounded once, after that sum. Only which
//! line receives a leftover paisa of a split may change with the order.

use vstd::prelude::*;
use super::domain::Line;
use super::engine::{
    component_total, discount_prefix, exclusive_rounded, exclusive_scaled_prefix, exclusive_weight, gross,
    gross_prefix, inclusive_prefix, inclusive_share, is_inclusive, line_discount, taxable, taxable_prefix,
    totals_spec,
};
use super::rounding::lemma_round_half_up_law;

verus! {

/// The sum of `f` over `lines`.
pub open spec fn sum_over(lines: Seq<Line>, f: spec_fn(Line) -> int) -> int
    decreases lines.len(),
{
    if lines.len() == 0 {
        0
    } else {
        sum_over(lines.drop_last(), f) + f(lines.last())
    }
}

/// An exclusive line's raw contribution to component `c`; zero for an
/// inclusive line.
pub open spec fn exclusive_part(l: Line, c: int) -> int {
    if is_inclusive(l) { 0 } else { exclusive_weight(l, c) }
}

/// An inclusive line's share of component `c`; zero for an exclusive line.
pub open spec fn inclusive_part(l: Line, c: int) -> int {
    if is_inclusive(l) { inclusive_share(l, c) } else { 0 }
}

/// Taking line `j` out of the sum takes out exactly its own value.
proof fn lemma_sum_over_remove(s: Seq<Line>, f: spec_fn(Line) -> int, j: int)
    requires
        0 <= j < s.len(),
    ensures
        sum_over(s, f) == sum_over(s.remove(j), f) + f(s[j]),
    decreases s.len(),
{
    if j == s.len() - 1 {
        assert(s.remove(j) =~= s.drop_last());
    } else {
        lemma_sum_over_remove(s.drop_last(), f, j);
        assert(s.remove(j).drop_last() =~= s.drop_last().remove(j));
        assert(s.remove(j).last() == s.last());
    }
}

/// Two arrangements of the same lines give the same sum.
proof fn lemma_sum_over_rearranged(a: Seq<Line>, b: Seq<Line>, f: spec_fn(Line) -> int)
    requires
        a.to_multiset() == b.to_multiset(),
    ensures
        sum_over(a, f) == sum_over(b, f),
    decreases a.len(),
{
    broadcast use vstd::seq_lib::group_to_multiset_ensures;

    if a.len() == 0 {
        assert(b.to_multiset().len() == 0);
        assert(b.len() == 0);
    } else {
        let x = a.last();
        let init = a.drop_last();
        assert(init.push(x) =~= a);
        assert(a.to_multiset() =~= init.to_multiset().insert(x));
        assert(b.to_multiset().count(x) > 0);
        assert(b.contains(x));
        let j = choose|j: int| 0 <= j < b.len() && b[j] == x;
        assert(b.remove(j).to_multiset() =~= b.to_multiset().remove(x));
        assert(init.to_multiset() =~= init.to_multiset().insert(x).remove(x));
        lemma_sum_over_rearranged(init, b.remove(j), f);
        lemma_sum_over_remove(b, f, j);
    }
}

proof fn lemma_take_step(lines: Seq<Line>, k: int)
    requires
        0 < k <= lines.len(),
    ensures
        lines.take(k).drop_last() == lines.take(k - 1),
        lines.take(k).last() == lines[k - 1],
{
    assert(lines.take(k).drop_last() =~= lines.take(k - 1));
}

proof fn lemma_gross_sum(lines: Seq<Line>, k: int)
    requires
        0 <= k <= lines.len(),
    ensures
        gross_prefix(lines, k) == sum_over(lines.take(k), |l: Line| gross(l)),
    decreases k,
{
    if k > 0 {
        lemma_gross_sum(lines, k - 1);
        lemma_take_step(lines, k);
    }
}

proof fn lemma_discount_sum(lines: Seq<Line>, k: int)
    requires
        0 <= k <= lines.len(),
    ensures
        discount_prefix(lines, k) == sum_over(lines.take(k), |l: Line| line_discount(l)),
    decreases k,
{
    if k > 0 {
        lemma_discount_sum(lines, k - 1);
        lemma_take_step(lines, k);
    }
}

proof fn lemma_taxable_sum(lines: Seq<Line>, k: int)
    requires
        0 <= k <= lines.len(),
    ensures
        taxable_prefix(lines, k) == sum_over(lines.take(k), |l: Line| taxable(l)),
    decreases k,
{
    if k > 0 {
        lemma_taxable_sum(lines, k - 1);
        lemma_take_step(lines, k);
    }
}

proof fn lemma_exclusive_sum(lines: Seq<Line>, c: int, k: int)
    requires
        0 <= k <= lines.len(),
    ensures
        exclusive_scaled_prefix(lines, c, k) == sum_over(lines.take(k), |l: Line| exclusive_part(l, c)),
    decreases k,
{
    if k > 0 {
        lemma_exclusive_sum(lines, c, k - 1);
        lemma_take_step(lines, k);
    }
}

proof fn lemma_inclusive_sum(lines: Seq<Line>, c: int, k: int)
    requires
        0 <= k <= lines.len(),
    ensures
        inclusive_prefix(lines, c, k) == sum_over(lines.take(k), |l: Line| inclusive_part(l, c)),
    decreases k,
{
    if k > 0 {
        lemma_inclusive_sum(lines, c, k - 1);
        lemma_take_step(lines, k);
    }
}

/// Every running total of the invoice, over all its lines, is the same for
/// two arrangements of the same lines.
proof fn lemma_sums_agree(a: Seq<Line>, b: Seq<Line>)
    requires
        a.to_multiset() == b.to_multiset(),
    ensures
        a.len() == b.len(),
        gross_prefix(a, a.len() as int) == gross_prefix(b, b.len() as int),
        discount_prefix(a, a.len() as int) == discount_prefix(b, b.len() as int),
        taxable_prefix(a, a.len() as int) == taxable_prefix(b, b.len() as int),
        forall|c: int|
            exclusive_scaled_prefix(a, c, a.len() as int) == #[trigger] exclusive_scaled_prefix(
                b,
                c,
                b.len() as int,
            ),
        forall|c: int|
            inclusive_prefix(a, c, a.len() as int) == #[trigger] inclusive_prefix(b, c, b.len() as int),
{
    broadcast use vstd::seq_lib::group_to_multiset_ensures;

    assert(a.len() == a.to_multiset().len());
    assert(b.len() == b.to_multiset().len());
    let na = a.len() as int;
    let nb = b.len() as int;
    assert(a.take(na) =~= a);
    assert(b.take(nb) =~= b);
    lemma_gross_sum(a, na);
    lemma_gross_sum(b, nb);
    lemma_sum_over_rearranged(a, b, |l: Line| gross(l));
    lemma_discount_sum(a, na);
    lemma_discount_sum(b, nb);
    lemma_sum_over_rearranged(a, b, |l: Line| line_discount(l));
    lemma_taxable_sum(a, na);
    lemma_taxable_sum(b, nb);
    lemma_sum_over_rearranged(a, b, |l: Line| taxable(l));
    assert forall|c: int|
        exclusive_scaled_prefix(a, c, na) == #[trigger] exclusive_scaled_prefix(b, c, nb) by {
        lemma_exclusive_sum(a, c, na);
        lemma_exclusive_sum(b, c, nb);
        lemma_sum_over_rearranged(a, b, |l: Line| exclusive_part(l, c));
    }
    assert forall|c: int| inclusive_prefix(a, c, na) == #[trigger] inclusive_prefix(b, c, nb) by {
        lemma_inclusive_sum(a, c, na);
        lemma_inclusive_sum(b, c, nb);
        lemma_sum_over_rearranged(a, b, |l: Line| inclusive_part(l, c));
    }
}

/// The invoice totals do not depend on the order of the lines: two
/// arrangements of the same lines have the same subtotal, discount,
/// taxable value, component totals, round-off and grand total.
pub proof fn lemma_totals_ignore_line_order(a: Seq<Line>, b: Seq<Line>)
    requires
        a.to_multiset() == b.to_multiset(),
    ensures
        totals_spec(a) == totals_spec(b),
{
    lemma_sums_agree(a, b);
    assert(exclusive_scaled_prefix(a, 0, a.len() as int) == exclusive_scaled_prefix(b, 0, b.len() as int));
    assert(exclusive_scaled_prefix(a, 1, a.len() as int) == exclusive_scaled_prefix(b, 1, b.len() as int));
    assert(exclusive_scaled_prefix(a, 2, a.len() as int) == exclusive_scaled_prefix(b, 2, b.len() as int));
    assert(exclusive_scaled_prefix(a, 3, a.len() as int) == exclusive_scaled_prefix(b, 3, b.len() as int));
    assert(inclusive_prefix(a, 0, a.len() as int) == inclusive_prefix(b, 0, b.len() as int));
    assert(inclusive_prefix(a, 1, a.len() as int) == inclusive_prefix(b, 1, b.len() as int));
    assert(inclusive_prefix(a, 2, a.len() as int) == inclusive_prefix(b, 2, b.len() as int));
    assert(inclusive_prefix(a, 3, a.len() as int) == inclusive_prefix(b, 3, b.len() as int));
}

/// Exclusive tax is rounded once per component, over the whole invoice:
/// component `c`'s exclusive total `E` is the invoice-wide sum `S` of every
/// exclusive line's `taxable * rate` for `c`, divided by 10000 and rounded
/// half-up once (`10000 * (2E - 1) <= 2S < 10000 * (2E + 1)`), not a sum of
/// per-line roundings; the component's invoice total adds the inclusive
/// lines' own shares to it.
pub proof fn lemma_exclusive_rounded_once(lines: Seq<Line>, c: int)
    requires
        sum_over(lines, |l: Line| exclusive_part(l, c)) >= 0,
    ensures
        ({
            let s = sum_over(lines, |l: Line| exclusive_part(l, c));
            let e = exclusive_rounded(lines, c);
            &&& 10000 * (2 * e - 1) <= 2 * s
            &&& 2 * s < 10000 * (2 * e + 1)
            &&& component_total(lines, c) == sum_over(lines, |l: Line| inclusive_part(l, c)) + e
        }),
{
    let n = lines.len() as int;
    assert(lines.take(n) =~= lines);
    lemma_exclusive_sum(lines, c, n);
    lemma_inclusive_sum(lines, c, n);
    lemma_round_half_up_law(exclusive_scaled_prefix(lines, c, n), 10000);
}

} // verus!
