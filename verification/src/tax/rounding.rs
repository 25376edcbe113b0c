//! Integer rounding primitives of the tax engine: half-up division, the
//! invoice-level component and rupee rounding steps, and the
//! largest-remainder split that distributes an exact amount across buckets
//! without losing or gaining a paisa.

use vstd::prelude::*;

verus! {

/// Basis-point scale: 2.5% = 250 basis points, so a rate is applied to an
/// amount by multiplying by `rate_bps` and dividing by 10000.
pub const BPS_DENOMINATOR: i64 = 10_000;

/// Whole-rupee scale: 100 paise = 1 rupee.
pub const PAISE_PER_RUPEE: i64 = 100;

/// `numerator / denominator` rounded half-up: a remainder of at least half
/// the denominator rounds up, anything less rounds down.
pub open spec fn round_half_up(numerator: int, denominator: int) -> int {
    numerator / denominator + if 2 * (numerator % denominator) >= denominator {
        1int
    } else {
        0int
    }
}

/// Half-up rounding of a non-negative ratio, stated without division: `r`
/// is the rounded value of `n / d` exactly when `n / d` lies in
/// `[r - 1/2, r + 1/2)`, i.e. `d * (2r - 1) <= 2n < d * (2r + 1)`, so an
/// exact half rounds up.
pub proof fn lemma_round_half_up_law(n: int, d: int)
    requires
        n >= 0,
        d > 0,
    ensures
        d * (2 * round_half_up(n, d) - 1) <= 2 * n,
        2 * n < d * (2 * round_half_up(n, d) + 1),
{
    let t = round_half_up(n, d);
    assert(d * (2 * t - 1) <= 2 * n && 2 * n < d * (2 * t + 1)) by (nonlinear_arith)
        requires
            d > 0,
            n >= 0,
            t == n / d + if 2 * (n % d) >= d { 1int } else { 0int },
    {
        let q = n / d;
        let r = n % d;
        assert(n == d * q + r);
        assert(0 <= r < d);
    }
}

/// Divides `numerator` by `denominator` and rounds the quotient half-up.
/// Defined for a non-negative numerator over a positive denominator (the
/// only inputs the engine ever produces).
pub fn round_half_up_div(numerator: i64, denominator: i64) -> (q: i64)
    requires
        denominator > 0,
        numerator >= 0,
    ensures
        q == round_half_up(numerator as int, denominator as int),
{
    let quotient = numerator / denominator;
    let remainder = numerator % denominator;
    if remainder >= denominator - remainder {
        assert(quotient < i64::MAX) by (nonlinear_arith)
            requires
                quotient == numerator / denominator,
                remainder == numerator % denominator,
                remainder >= denominator - remainder,
                numerator >= 0,
                denominator > 0,
                numerator <= i64::MAX,
        {
            if denominator == 1 {
                assert(remainder == 0);
            } else {
                assert(quotient <= numerator / 2);
            }
        }
        quotient + 1
    } else {
        quotient
    }
}

/// Rounds a component's accumulated `(paise * rate_bps)` total to paise,
/// half-up, exactly once.
pub fn round_component_paise(scaled_paise: i64) -> (p: i64)
    requires
        scaled_paise >= 0,
    ensures
        p == round_half_up(scaled_paise as int, BPS_DENOMINATOR as int),
{
    round_half_up_div(scaled_paise, BPS_DENOMINATOR)
}

/// The nearest multiple of 100 paise, half-up.
pub open spec fn nearest_rupee(amount: int) -> int {
    round_half_up(amount, PAISE_PER_RUPEE as int) * PAISE_PER_RUPEE
}

/// Rounds a paise amount to the nearest 100 paise, half-up.
pub fn round_to_nearest_rupee(amount_paise: i64) -> (r: i64)
    requires
        amount_paise >= 0,
    ensures
        r == nearest_rupee(amount_paise as int),
        r % 100 == 0,
        -49 <= r - amount_paise <= 50,
{
    let q = round_half_up_div(amount_paise, PAISE_PER_RUPEE);
    assert(q * 100 <= i64::MAX && q * 100 - amount_paise >= -49 && q * 100 - amount_paise <= 50)
        by (nonlinear_arith)
        requires
            q == amount_paise / 100 + if 2 * (amount_paise % 100) >= 100 { 1int } else { 0int },
            0 <= amount_paise <= i64::MAX,
    {
        assert(amount_paise == 100 * (amount_paise / 100) + amount_paise % 100);
    }
    let r = q * PAISE_PER_RUPEE;
    assert((q * 100) % 100 == 0) by (nonlinear_arith);
    r
}

// ------------------------------------------------------------------------
// Largest-remainder split.
// ------------------------------------------------------------------------

/// Sum of the first `k` weights.
pub open spec fn weight_prefix_sum(w: Seq<i64>, k: int) -> int
    decreases k,
{
    if k <= 0 {
        0
    } else {
        weight_prefix_sum(w, k - 1) + w[k - 1]
    }
}

/// Sum of every weight.
pub open spec fn weight_sum(w: Seq<i64>) -> int {
    weight_prefix_sum(w, w.len() as int)
}

/// Floor share of bucket `i` before any leftover is handed out.
pub open spec fn floor_share(total: int, w: Seq<i64>, i: int) -> int {
    (total * w[i]) / weight_sum(w)
}

/// Fractional remainder of bucket `i` (scaled by the weight sum).
pub open spec fn frac_share(total: int, w: Seq<i64>, i: int) -> int {
    (total * w[i]) % weight_sum(w)
}

/// Sum of the first `k` floor shares.
pub open spec fn floor_prefix_sum(total: int, w: Seq<i64>, k: int) -> int
    decreases k,
{
    if k <= 0 {
        0
    } else {
        floor_prefix_sum(total, w, k - 1) + floor_share(total, w, k - 1)
    }
}

/// Sum of the first `k` fractional remainders.
pub open spec fn frac_prefix_sum(total: int, w: Seq<i64>, k: int) -> int
    decreases k,
{
    if k <= 0 {
        0
    } else {
        frac_prefix_sum(total, w, k - 1) + frac_share(total, w, k - 1)
    }
}

/// Bucket `j` outranks bucket `i` for the leftover: a strictly larger
/// remainder, or an equal one at a smaller index.
pub open spec fn outranks(total: int, w: Seq<i64>, j: int, i: int) -> bool {
    frac_share(total, w, j) > frac_share(total, w, i) || (frac_share(total, w, j)
        == frac_share(total, w, i) && j < i)
}

/// How many of the indices `0..m` satisfy `p`.
pub open spec fn count_where(p: spec_fn(int) -> bool, m: int) -> nat
    decreases m,
{
    if m <= 0 {
        0
    } else {
        count_where(p, m - 1) + if p(m - 1) { 1nat } else { 0nat }
    }
}

/// How many buckets outrank bucket `i`.
pub open spec fn rank_of(total: int, w: Seq<i64>, i: int) -> nat {
    count_where(|j: int| outranks(total, w, j, i), w.len() as int)
}

/// The paise left over once every bucket received its floor share.
pub open spec fn leftover_paise(total: int, w: Seq<i64>) -> int {
    total - floor_prefix_sum(total, w, w.len() as int)
}

/// The largest-remainder split of `total` across `w.len()` buckets: every
/// bucket gets its floor share, and the `leftover_paise` buckets with the
/// largest remainders (ties to the smaller index) get one paisa more. A
/// zero total, or no buckets, gives all zeros; a zero weight sum puts the
/// whole total on the first bucket.
pub open spec fn split_spec(total: int, w: Seq<i64>) -> Seq<int> {
    if total == 0 || w.len() == 0 {
        Seq::new(w.len(), |i: int| 0int)
    } else if weight_sum(w) == 0 {
        Seq::new(w.len(), |i: int| if i == 0 { total } else { 0int })
    } else {
        Seq::new(
            w.len(),
            |i: int|
                floor_share(total, w, i) + if rank_of(total, w, i) < leftover_paise(total, w) {
                    1int
                } else {
                    0int
                },
        )
    }
}

/// The inputs a split is defined on: a non-negative total and
/// non-negative weights, with every product and the weight sum inside
/// `i64`.
pub open spec fn split_inputs_ok(total: int, w: Seq<i64>) -> bool {
    &&& total >= 0
    &&& forall|i: int| 0 <= i < w.len() ==> w[i] >= 0
    &&& forall|i: int| 0 <= i < w.len() ==> total * w[i] <= i64::MAX
    &&& weight_sum(w) <= i64::MAX
}

proof fn lemma_weight_prefix_nonneg(w: Seq<i64>, a: int)
    requires
        0 <= a <= w.len(),
        forall|i: int| 0 <= i < w.len() ==> w[i] >= 0,
    ensures
        0 <= weight_prefix_sum(w, a),
    decreases a,
{
    if a > 0 {
        lemma_weight_prefix_nonneg(w, a - 1);
    }
}

proof fn lemma_weight_prefix_monotone(w: Seq<i64>, a: int, b: int)
    requires
        0 <= a <= b <= w.len(),
        forall|i: int| 0 <= i < w.len() ==> w[i] >= 0,
    ensures
        0 <= weight_prefix_sum(w, a) <= weight_prefix_sum(w, b),
    decreases b - a,
{
    lemma_weight_prefix_nonneg(w, a);
    if a < b {
        lemma_weight_prefix_monotone(w, a, b - 1);
    }
}

/// `floor * W + frac == total * w` summed over a prefix.
proof fn lemma_floor_frac_prefix(total: int, w: Seq<i64>, k: int)
    requires
        0 <= k <= w.len(),
        weight_sum(w) > 0,
    ensures
        floor_prefix_sum(total, w, k) * weight_sum(w) + frac_prefix_sum(total, w, k) == total
            * weight_prefix_sum(w, k),
    decreases k,
{
    if k > 0 {
        lemma_floor_frac_prefix(total, w, k - 1);
        let ws = weight_sum(w);
        let x = total * w[k - 1];
        assert(x == (x / ws) * ws + x % ws) by (nonlinear_arith)
            requires
                ws > 0,
        ;
        let fp = floor_prefix_sum(total, w, k - 1);
        let fr = frac_prefix_sum(total, w, k - 1);
        let wp = weight_prefix_sum(w, k - 1);
        assert((fp + x / ws) * ws + (fr + x % ws) == total * (wp + w[k - 1])) by (nonlinear_arith)
            requires
                fp * ws + fr == total * wp,
                x == (x / ws) * ws + x % ws,
                x == total * w[k - 1],
        ;
    }
}

proof fn lemma_frac_prefix_bounds(total: int, w: Seq<i64>, k: int)
    requires
        0 <= k <= w.len(),
        weight_sum(w) > 0,
    ensures
        0 <= frac_prefix_sum(total, w, k) <= k * (weight_sum(w) - 1),
    decreases k,
{
    if k > 0 {
        lemma_frac_prefix_bounds(total, w, k - 1);
        let ws = weight_sum(w);
        let x = total * w[k - 1];
        assert(0 <= x % ws < ws);
        assert((k - 1) * (ws - 1) + (ws - 1) == k * (ws - 1)) by (nonlinear_arith);
    }
}

proof fn lemma_floor_prefix_nonneg(total: int, w: Seq<i64>, k: int)
    requires
        split_inputs_ok(total, w),
        0 <= k <= w.len(),
        weight_sum(w) > 0,
    ensures
        0 <= floor_prefix_sum(total, w, k),
        forall|i: int| 0 <= i < k ==> 0 <= #[trigger] floor_share(total, w, i) <= floor_prefix_sum(total, w, k),
    decreases k,
{
    if k > 0 {
        lemma_floor_prefix_nonneg(total, w, k - 1);
        let ws = weight_sum(w);
        let x = total * w[k - 1];
        assert(x >= 0) by (nonlinear_arith)
            requires
                x == total * w[k - 1],
                total >= 0,
                w[k - 1] >= 0,
        ;
        assert(x / ws >= 0) by (nonlinear_arith)
            requires
                x >= 0,
                ws > 0,
        ;
    }
}

proof fn lemma_floor_prefix_facts(total: int, w: Seq<i64>, k: int)
    requires
        split_inputs_ok(total, w),
        0 <= k <= w.len(),
        weight_sum(w) > 0,
    ensures
        0 <= floor_prefix_sum(total, w, k) <= total,
{
    lemma_floor_frac_prefix(total, w, k);
    lemma_frac_prefix_bounds(total, w, k);
    lemma_weight_prefix_monotone(w, k, w.len() as int);
    lemma_floor_prefix_nonneg(total, w, k);
    let ws = weight_sum(w);
    let fp = floor_prefix_sum(total, w, k);
    let fr = frac_prefix_sum(total, w, k);
    let wp = weight_prefix_sum(w, k);
    assert(total * wp <= total * ws) by (nonlinear_arith)
        requires
            0 <= wp <= ws,
            total >= 0,
    ;
    assert(fp <= total) by (nonlinear_arith)
        requires
            fp * ws <= total * ws,
            ws > 0,
    ;
}

/// The leftover is at most one fewer than the number of buckets.
proof fn lemma_leftover_bounds(total: int, w: Seq<i64>)
    requires
        split_inputs_ok(total, w),
        w.len() > 0,
        weight_sum(w) > 0,
    ensures
        0 <= leftover_paise(total, w) < w.len(),
{
    let n = w.len() as int;
    lemma_floor_frac_prefix(total, w, n);
    lemma_frac_prefix_bounds(total, w, n);
    let ws = weight_sum(w);
    let fp = floor_prefix_sum(total, w, n);
    let fr = frac_prefix_sum(total, w, n);
    let lo = total - fp;
    assert(0 <= lo < n) by (nonlinear_arith)
        requires
            fp * ws + fr == total * ws,
            0 <= fr <= n * (ws - 1),
            ws > 0,
            n > 0,
            lo == total - fp,
    {
        assert(lo * ws == fr);
        if lo >= n {
            assert(lo * ws >= n * ws);
        }
        if lo < 0 {
            assert(lo * ws < 0);
        }
    }
}

proof fn lemma_count_bounds(p: spec_fn(int) -> bool, m: int)
    requires
        m >= 0,
    ensures
        count_where(p, m) <= m,
    decreases m,
{
    if m > 0 {
        lemma_count_bounds(p, m - 1);
    }
}

/// Pointwise implication bounds the counts.
proof fn lemma_count_monotone(p: spec_fn(int) -> bool, q: spec_fn(int) -> bool, m: int)
    requires
        forall|j: int| 0 <= j < m && #[trigger] p(j) ==> q(j),
    ensures
        count_where(p, m) <= count_where(q, m),
    decreases m,
{
    if m > 0 {
        lemma_count_monotone(p, q, m - 1);
    }
}

/// Strict version: one index where `q` holds and `p` does not.
proof fn lemma_count_monotone_strict(
    p: spec_fn(int) -> bool,
    q: spec_fn(int) -> bool,
    m: int,
    i: int,
)
    requires
        forall|j: int| 0 <= j < m && #[trigger] p(j) ==> q(j),
        0 <= i < m,
        q(i),
        !p(i),
    ensures
        count_where(p, m) + 1 <= count_where(q, m),
    decreases m,
{
    if m - 1 == i {
        lemma_count_monotone(p, q, m - 1);
    } else {
        lemma_count_monotone_strict(p, q, m - 1, i);
    }
}

/// Fewer than `m` hits means some index in `0..m` misses.
proof fn lemma_count_short_has_miss(p: spec_fn(int) -> bool, m: int) -> (j: int)
    requires
        count_where(p, m) < m,
    ensures
        0 <= j < m,
        !p(j),
    decreases m,
{
    if !p(m - 1) {
        m - 1
    } else {
        lemma_count_short_has_miss(p, m - 1)
    }
}

proof fn lemma_count_extend(p: spec_fn(int) -> bool, q: spec_fn(int) -> bool, m: int, i: int)
    requires
        0 <= i < m,
        forall|j: int| 0 <= j < m && j != i ==> #[trigger] p(j) == q(j),
        !p(i),
        q(i),
    ensures
        count_where(q, m) == count_where(p, m) + 1,
    decreases m,
{
    if m - 1 == i {
        lemma_count_same(p, q, m - 1);
    } else {
        lemma_count_extend(p, q, m - 1, i);
    }
}

proof fn lemma_count_same(p: spec_fn(int) -> bool, q: spec_fn(int) -> bool, m: int)
    requires
        forall|j: int| 0 <= j < m ==> #[trigger] p(j) == q(j),
    ensures
        count_where(q, m) == count_where(p, m),
    decreases m,
{
    if m > 0 {
        lemma_count_same(p, q, m - 1);
    }
}

/// Distributes `total` (an exact integer amount) across `weights.len()`
/// buckets in proportion to `weights`, such that the buckets sum to exactly
/// `total`. Each bucket gets its floor share; the leftover paise go to the
/// buckets with the largest remainders, ties broken by bucket index.
pub fn largest_remainder_split(total: i64, weights: &[i64]) -> (out: Vec<i64>)
    requires
        split_inputs_ok(total as int, weights@),
    ensures
        out@.len() == weights@.len(),
        forall|i: int| 0 <= i < out@.len() ==> out@[i] == split_spec(total as int, weights@)[i],
        forall|i: int| 0 <= i < out@.len() ==> out@[i] >= 0,
        weights@.len() > 0 ==> weight_prefix_sum(out@, out@.len() as int) == total,
{
    let n = weights.len();
    let ghost w = weights@;
    let mut out: Vec<i64> = Vec::new();
    let mut z: usize = 0;
    while z < n
        invariant
            z <= n,
            n == weights@.len(),
            out@.len() == z,
            forall|i: int| 0 <= i < z ==> out@[i] == 0,
        decreases n - z,
    {
        out.push(0);
        z += 1;
    }
    if total == 0 || n == 0 {
        proof {
            if n > 0 {
                lemma_zero_prefix(out@, n as int);
            }
        }
        return out;
    }
    let mut wsum: i64 = 0;
    let mut s: usize = 0;
    while s < n
        invariant
            s <= n,
            n == w.len(),
            w == weights@,
            split_inputs_ok(total as int, w),
            wsum == weight_prefix_sum(w, s as int),
        decreases n - s,
    {
        proof {
            lemma_weight_prefix_monotone(w, s as int + 1, n as int);
        }
        wsum = wsum + weights[s];
        s += 1;
    }
    if wsum == 0 {
        out.set(0, total);
        proof {
            lemma_first_only_prefix(out@, n as int, total as int);
        }
        return out;
    }
    proof {
        lemma_weight_prefix_monotone(w, 0, n as int);
    }
    let mut fracs: Vec<i64> = Vec::new();
    let mut allocated: i64 = 0;
    let mut i: usize = 0;
    while i < n
        invariant
            i <= n,
            n == w.len(),
            w == weights@,
            split_inputs_ok(total as int, w),
            wsum == weight_sum(w),
            wsum > 0,
            total > 0,
            out@.len() == n,
            fracs@.len() == i,
            forall|k: int| 0 <= k < i ==> out@[k] == floor_share(total as int, w, k),
            forall|k: int| i <= k < n ==> out@[k] == 0,
            forall|k: int| 0 <= k < i ==> fracs@[k] == frac_share(total as int, w, k),
            allocated == floor_prefix_sum(total as int, w, i as int),
            0 <= allocated <= total,
        decreases n - i,
    {
        proof {
            lemma_floor_prefix_facts(total as int, w, i as int + 1);
        }
        let scaled = total * weights[i];
        assert(scaled >= 0) by (nonlinear_arith)
            requires
                scaled == total * weights@[i as int],
                total > 0,
                weights@[i as int] >= 0,
        ;
        let f = scaled / wsum;
        out.set(i, f);
        fracs.push(scaled % wsum);
        allocated = allocated + f;
        i += 1;
    }
    proof {
        lemma_leftover_bounds(total as int, w);
        lemma_floor_prefix_nonneg(total as int, w, n as int);
    }
    let ghost leftover0: int = total - allocated;
    let mut leftover: i64 = total - allocated;
    let mut claimed: Vec<bool> = Vec::new();
    let mut c: usize = 0;
    while c < n
        invariant
            c <= n,
            claimed@.len() == c,
            forall|k: int| 0 <= k < c ==> !claimed@[k],
        decreases n - c,
    {
        claimed.push(false);
        c += 1;
    }
    proof {
        let p = |j: int| claimed@[j];
        let q = |j: int| false;
        lemma_count_same(q, p, n as int);
        assert(count_where(q, n as int) == 0) by {
            lemma_count_zero(n as int);
        }
    }
    while leftover > 0
        invariant
            n == w.len(),
            w == weights@,
            wsum == weight_sum(w),
            wsum > 0,
            total > 0,
            out@.len() == n,
            fracs@.len() == n,
            claimed@.len() == n,
            forall|k: int| 0 <= k < n ==> fracs@[k] == frac_share(total as int, w, k),
            forall|k: int| 0 <= k < n ==> #[trigger] floor_share(total as int, w, k) <= total - leftover0,
            0 <= leftover <= leftover0,
            leftover0 == leftover_paise(total as int, w),
            leftover0 < n,
            forall|k: int|
                0 <= k < n ==> out@[k] == floor_share(total as int, w, k) + if claimed@[k] {
                    1int
                } else {
                    0int
                },
            count_where(|j: int| claimed@[j], n as int) == leftover0 - leftover,
            forall|j: int, k: int|
                0 <= j < n && 0 <= k < n && claimed@[j] && !claimed@[k] ==> outranks(
                    total as int,
                    w,
                    j,
                    k,
                ),
        decreases leftover,
    {
        let ghost cl = claimed@;
        proof {
            lemma_count_short_has_miss(|j: int| cl[j], n as int);
        }
        let mut best_idx: Option<usize> = None;
        let mut best_frac: i64 = -1;
        let mut k: usize = 0;
        while k < n
            invariant
                k <= n,
                n == fracs@.len(),
                claimed@ == cl,
                cl.len() == n,
                forall|t: int| 0 <= t < n ==> fracs@[t] >= 0,
                match best_idx {
                    None => best_frac == -1 && forall|t: int| 0 <= t < k ==> cl[t],
                    Some(b) => {
                        &&& b < k
                        &&& !cl[b as int]
                        &&& fracs@[b as int] == best_frac
                        &&& forall|t: int|
                            0 <= t < k && !cl[t] ==> fracs@[t] < best_frac || (fracs@[t]
                                == best_frac && b <= t)
                    },
                },
            decreases n - k,
        {
            if !claimed[k] {
                if fracs[k] > best_frac {
                    best_frac = fracs[k];
                    best_idx = Some(k);
                }
            }
            k += 1;
        }
        let idx = best_idx.unwrap();
        let old_value = out[idx];
        proof {
            assert(!cl[idx as int]);
        }
        out.set(idx, old_value + 1);
        claimed.set(idx, true);
        leftover = leftover - 1;
        proof {
            let p = |j: int| cl[j];
            let q = |j: int| claimed@[j];
            lemma_count_extend(p, q, n as int, idx as int);
            assert forall|j: int, t: int|
                0 <= j < n && 0 <= t < n && claimed@[j] && !claimed@[t] implies outranks(
                total as int,
                w,
                j,
                t,
            ) by {
                if j != idx as int {
                    assert(cl[j] && !cl[t]);
                } else {
                    assert(!cl[t]);
                }
            }
        }
    }
    proof {
        assert forall|k: int| 0 <= k < n implies out@[k] == split_spec(total as int, w)[k] by {
            let cl = claimed@;
            let p = |j: int| outranks(total as int, w, j, k);
            let q = |j: int| cl[j];
            if cl[k] {
                assert forall|j: int| 0 <= j < n && #[trigger] p(j) implies q(j) by {
                    if !cl[j] {
                        assert(outranks(total as int, w, k, j));
                    }
                }
                lemma_count_monotone_strict(p, q, n as int, k);
            } else {
                assert forall|j: int| 0 <= j < n && #[trigger] q(j) implies p(j) by {}
                lemma_count_monotone(q, p, n as int);
            }
        }
        lemma_split_total(total as int, w, out@, claimed@);
    }
    out
}

proof fn lemma_count_zero(m: int)
    ensures
        count_where(|j: int| false, m) == 0,
    decreases m,
{
    if m > 0 {
        lemma_count_zero(m - 1);
    }
}

proof fn lemma_zero_prefix(s: Seq<i64>, k: int)
    requires
        0 <= k <= s.len(),
        forall|i: int| 0 <= i < s.len() ==> s[i] == 0,
    ensures
        weight_prefix_sum(s, k) == 0,
    decreases k,
{
    if k > 0 {
        lemma_zero_prefix(s, k - 1);
    }
}

proof fn lemma_first_only_prefix(s: Seq<i64>, k: int, t: int)
    requires
        0 < k <= s.len(),
        s[0] == t,
        forall|i: int| 0 < i < s.len() ==> s[i] == 0,
    ensures
        weight_prefix_sum(s, k) == t,
    decreases k,
{
    if k > 1 {
        lemma_first_only_prefix(s, k - 1, t);
    } else {
        assert(weight_prefix_sum(s, 0) == 0);
    }
}

/// Sum of the first `k` entries of `out` is the floor prefix plus the
/// number of claimed buckets among them.
proof fn lemma_out_prefix(total: int, w: Seq<i64>, out: Seq<i64>, cl: Seq<bool>, k: int)
    requires
        0 <= k <= w.len(),
        out.len() == w.len(),
        cl.len() == w.len(),
        forall|i: int|
            0 <= i < w.len() ==> out[i] == floor_share(total, w, i) + if cl[i] {
                1int
            } else {
                0int
            },
    ensures
        weight_prefix_sum(out, k) == floor_prefix_sum(total, w, k) + count_where(
            |j: int| cl[j],
            k,
        ),
    decreases k,
{
    if k > 0 {
        lemma_out_prefix(total, w, out, cl, k - 1);
    }
}

proof fn lemma_split_total(total: int, w: Seq<i64>, out: Seq<i64>, cl: Seq<bool>)
    requires
        out.len() == w.len(),
        cl.len() == w.len(),
        forall|i: int|
            0 <= i < w.len() ==> out[i] == floor_share(total, w, i) + if cl[i] {
                1int
            } else {
                0int
            },
        count_where(|j: int| cl[j], w.len() as int) == leftover_paise(total, w),
    ensures
        weight_prefix_sum(out, w.len() as int) == total,
{
    lemma_out_prefix(total, w, out, cl, w.len() as int);
}

/// Counting is monotone in the predicate.
proof fn lemma_count_where_mono(p: spec_fn(int) -> bool, q: spec_fn(int) -> bool, m: int)
    requires
        forall|j: int| #[trigger] p(j) ==> q(j),
    ensures
        count_where(p, m) <= count_where(q, m),
    decreases m,
{
    if m > 0 {
        lemma_count_where_mono(p, q, m - 1);
    }
}

/// The remainders of a prefix add up to at most (weight sum - 1) per
/// bucket with a positive remainder.
proof fn lemma_frac_sum_by_positive(total: int, w: Seq<i64>, k: int)
    requires
        0 <= k <= w.len(),
        weight_sum(w) > 0,
    ensures
        frac_prefix_sum(total, w, k) <= count_where(|j: int| frac_share(total, w, j) > 0, k) * (weight_sum(w)
            - 1),
    decreases k,
{
    if k > 0 {
        lemma_frac_sum_by_positive(total, w, k - 1);
        let ws = weight_sum(w);
        let f = frac_share(total, w, k - 1);
        let c = count_where(|j: int| frac_share(total, w, j) > 0, k - 1);
        assert(0 <= f < ws);
        if f > 0 {
            assert(c * (ws - 1) + (ws - 1) == (c + 1) * (ws - 1)) by (nonlinear_arith);
        }
    }
}

/// A bucket whose weight is zero receives nothing, unless every weight is
/// zero (then the whole total lands on the first bucket).
pub proof fn lemma_zero_weight_gets_zero(total: int, w: Seq<i64>, i: int)
    requires
        split_inputs_ok(total, w),
        weight_sum(w) > 0,
        0 <= i < w.len(),
        w[i] == 0,
    ensures
        split_spec(total, w)[i] == 0,
{
    if total != 0 {
        let ws = weight_sum(w);
        let n = w.len() as int;
        assert(total * w[i] == 0);
        assert(floor_share(total, w, i) == 0);
        assert(frac_share(total, w, i) == 0);
        let pos = |j: int| frac_share(total, w, j) > 0;
        let out = |j: int| outranks(total, w, j, i);
        lemma_count_where_mono(pos, out, n);
        lemma_frac_sum_by_positive(total, w, n);
        lemma_floor_frac_prefix(total, w, n);
        let fs = floor_prefix_sum(total, w, n);
        let fr = frac_prefix_sum(total, w, n);
        let p = count_where(pos, n) as int;
        let l = leftover_paise(total, w);
        assert(weight_prefix_sum(w, n) == ws);
        assert(l * ws == fr) by (nonlinear_arith)
            requires
                fs * ws + fr == total * ws,
                l == total - fs,
        ;
        assert(l < p || l <= 0) by (nonlinear_arith)
            requires
                l * ws == fr,
                fr <= p * (ws - 1),
                ws > 0,
                p >= 0,
        ;
        assert(rank_of(total, w, i) >= p);
    }
}

/// The split is proportional to within one paisa: with a positive weight
/// sum `W`, bucket `i`'s amount `s` satisfies `(s - 1) * W <= total * w[i]
/// < (s + 1) * W`.
pub proof fn lemma_split_is_proportional(total: int, w: Seq<i64>, i: int)
    requires
        split_inputs_ok(total, w),
        weight_sum(w) > 0,
        0 <= i < w.len(),
    ensures
        (split_spec(total, w)[i] - 1) * weight_sum(w) <= total * w[i],
        total * w[i] < (split_spec(total, w)[i] + 1) * weight_sum(w),
{
    let ws = weight_sum(w);
    let x = total * w[i];
    let sp = split_spec(total, w)[i];
    if total == 0 {
        assert(x == 0);
        assert(sp == 0);
        assert((sp - 1) * ws <= x && x < (sp + 1) * ws) by (nonlinear_arith)
            requires
                sp == 0,
                x == 0,
                ws > 0,
        ;
    } else {
        let f = floor_share(total, w, i);
        assert(sp == f || sp == f + 1);
        assert((sp - 1) * ws <= x && x < (sp + 1) * ws) by (nonlinear_arith)
            requires
                f == x / ws,
                sp == f || sp == f + 1,
                ws > 0,
        {
            let r = x % ws;
            assert(x == ws * f + r);
            assert(0 <= r < ws);
        }
    }
}

/// The leftover paise go to the largest remainders: when bucket `j` got a
/// paisa above its proportional floor (`s_j * W > total * w[j]`) and
/// bucket `i` has a strictly larger remainder `(total * w[i]) % W`, bucket
/// `i` got one too.
pub proof fn lemma_leftover_follows_remainders(total: int, w: Seq<i64>, i: int, j: int)
    requires
        split_inputs_ok(total, w),
        weight_sum(w) > 0,
        total > 0,
        0 <= i < w.len(),
        0 <= j < w.len(),
        (total * w[i]) % weight_sum(w) > (total * w[j]) % weight_sum(w),
        split_spec(total, w)[j] * weight_sum(w) > total * w[j],
    ensures
        split_spec(total, w)[i] * weight_sum(w) > total * w[i],
{
    let ws = weight_sum(w);
    let n = w.len() as int;
    let xj = total * w[j];
    let fj = floor_share(total, w, j);
    let sj = split_spec(total, w)[j];
    assert(sj == fj + 1) by {
        if sj == fj {
            assert(fj * ws <= xj) by (nonlinear_arith)
                requires
                    fj == xj / ws,
                    ws > 0,
            {
                assert(xj == ws * fj + xj % ws);
                assert(xj % ws >= 0);
            }
        }
    }
    assert(rank_of(total, w, j) < leftover_paise(total, w));
    let pi = |k: int| outranks(total, w, k, i);
    let pj = |k: int| outranks(total, w, k, j);
    assert forall|k: int| 0 <= k < n && #[trigger] pi(k) implies pj(k) by {}
    assert(pj(i));
    assert(!pi(i));
    lemma_count_monotone_strict(pi, pj, n, i);
    assert(rank_of(total, w, i) < leftover_paise(total, w));
    let xi = total * w[i];
    let fi = floor_share(total, w, i);
    assert(split_spec(total, w)[i] == fi + 1);
    assert((fi + 1) * ws > xi) by (nonlinear_arith)
        requires
            fi == xi / ws,
            ws > 0,
    {
        assert(xi == ws * fi + xi % ws);
        assert(xi % ws < ws);
    }
}

} // verus!
