//! Exact integer ratio rounding for micro-unit quantities and paise.
//! Every quantity is an integer count of micro-units; a ratio is rounded
//! half away from zero exactly once.

use vstd::prelude::*;

verus! {

/// `n / d` rounded half away from zero (for `d > 0`): the magnitude is
/// `|n| / d`, plus one when the remainder is at least half of `d`, and the
/// sign is `n`'s.
pub open spec fn round_half_away(n: int, d: int) -> int {
    let a = if n < 0 { -n } else { n };
    let m = if 2 * (a % d) >= d { a / d + 1 } else { a / d };
    if n < 0 { -m } else { m }
}

/// The magnitude of the rounded ratio never exceeds the magnitude of the
/// numerator, and is zero only for a numerator under half the divisor.
pub proof fn lemma_round_half_away_bounds(n: int, d: int)
    requires
        d > 0,
    ensures
        n >= 0 ==> 0 <= round_half_away(n, d),
        n <= 0 ==> round_half_away(n, d) <= 0,
        d == 1 ==> round_half_away(n, d) == n,
        -(if n < 0 { -n } else { n }) <= round_half_away(n, d) <= (if n < 0 { -n } else { n }),
{
    let a = if n < 0 { -n } else { n };
    let q = a / d;
    let r = a % d;
    vstd::arithmetic::div_mod::lemma_fundamental_div_mod(a, d);
    assert(0 <= r < d);
    assert(q >= 0) by {
        vstd::arithmetic::div_mod::lemma_div_pos_is_pos(a, d);
    }
    if 2 * r >= d {
        assert(d * q + r == a);
        assert(d * q >= q) by (nonlinear_arith)
            requires
                d >= 1,
                q >= 0,
        ;
        if d == 1 {
            assert(r == 0);
        }
        assert(q + 1 <= a) by (nonlinear_arith)
            requires
                d * q + r == a,
                2 * r >= d,
                d >= 2 || r >= 1,
                q >= 0,
                d >= 1,
        ;
    } else {
        assert(d * q >= q) by (nonlinear_arith)
            requires
                d >= 1,
                q >= 0,
        ;
    }
    if d == 1 {
        vstd::arithmetic::div_mod::lemma_div_basics(a);
    }
}

/// Half-away-from-zero rounding stated without division: `r` is within
/// half of `n / d`, an exact half moving away from zero, and the rounding
/// is symmetric in the sign of `n`.
pub proof fn lemma_round_half_away_law(n: int, d: int)
    requires
        d > 0,
    ensures
        n >= 0 ==> d * (2 * round_half_away(n, d) - 1) <= 2 * n && 2 * n < d * (2 * round_half_away(n, d) + 1),
        n <= 0 ==> d * (2 * round_half_away(n, d) - 1) < 2 * n && 2 * n <= d * (2 * round_half_away(n, d) + 1),
        round_half_away(-n, d) == -round_half_away(n, d),
{
    let a = if n < 0 { -n } else { n };
    let m = if 2 * (a % d) >= d { a / d + 1 } else { a / d };
    assert(d * (2 * m - 1) <= 2 * a && 2 * a < d * (2 * m + 1)) by (nonlinear_arith)
        requires
            d > 0,
            a >= 0,
            m == (if 2 * (a % d) >= d { a / d + 1 } else { a / d }),
    {
        let q = a / d;
        let r = a % d;
        assert(a == d * q + r);
        assert(0 <= r < d);
    }
    if n < 0 {
        assert(round_half_away(n, d) == -m);
        assert(d * (2 * (-m) - 1) < 2 * n && 2 * n <= d * (2 * (-m) + 1)) by (nonlinear_arith)
            requires
                d * (2 * m - 1) <= 2 * a,
                2 * a < d * (2 * m + 1),
                a == -n,
        ;
    }
    if n == 0 {
        assert(a == 0);
        assert(a % d == 0 && a / d == 0) by (nonlinear_arith)
            requires
                a == 0,
                d > 0,
        ;
        assert(m == 0);
        assert(round_half_away(n, d) == 0);
        assert(d * (2 * 0 - 1) < 0) by (nonlinear_arith)
            requires
                d > 0,
        ;
    }
}

/// An exact multiple rounds to its own quotient.
pub proof fn lemma_round_exact_multiple(n: int, d: int)
    requires
        d > 0,
    ensures
        round_half_away(n * d, d) == n,
{
    let a = if n * d < 0 { -(n * d) } else { n * d };
    let m = if n < 0 { -n } else { n };
    assert(a == d * m) by (nonlinear_arith)
        requires
            a == (if n * d < 0 { -(n * d) } else { n * d }),
            m == (if n < 0 { -n } else { n }),
            d > 0,
    ;
    vstd::arithmetic::div_mod::lemma_div_multiples_vanish(m, d);
    vstd::arithmetic::div_mod::lemma_mod_multiples_basic(m, d);
    assert(m * d == d * m) by (nonlinear_arith);
    assert(n * d < 0 <==> n < 0) by (nonlinear_arith)
        requires
            d > 0,
    ;
}

/// Rounds `num / den` half away from zero, exactly.
pub fn round_ratio_half_away_from_zero(num: i128, den: i128) -> (r: i128)
    requires
        den > 0,
        num > i128::MIN,
    ensures
        r == round_half_away(num as int, den as int),
{
    proof {
        lemma_round_half_away_bounds(num as int, den as int);
    }
    let a: i128 = if num < 0 { -num } else { num };
    let q: i128 = a / den;
    let rem: i128 = a % den;
    let m: i128 = if rem >= den - rem {
        proof {
            vstd::arithmetic::div_mod::lemma_fundamental_div_mod(a as int, den as int);
            assert(q + 1 <= a) by (nonlinear_arith)
                requires
                    den * q + rem == a,
                    2 * rem >= den,
                    0 <= rem < den,
                    q >= 0,
            ;
        }
        q + 1
    } else {
        q
    };
    if num < 0 {
        -m
    } else {
        m
    }
}

} // verus!
