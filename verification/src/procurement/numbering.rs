//! The issued goods-receipt number. The counter behind it restarts every
//! outlet-local business day while numbers are unique forever, so the
//! number embeds the business date the counter is keyed by; past four
//! digits the ordinal grows rather than truncating.

use vstd::prelude::*;
use crate::order::{lemma_decimal_injective, lemma_decimal_is_digits};
use crate::text::{decimal, digit_char, digits_value, lemma_zero_padded_spells, push_char, push_decimal, zero_padded};

verus! {

/// Whether `c` is one of `0`..`9`.
pub open spec fn is_ascii_digit(c: char) -> bool {
    '0' <= c <= '9'
}

/// The ASCII digits of `s`, in order.
pub open spec fn ascii_digits(s: Seq<char>) -> Seq<char>
    decreases s.len(),
{
    if s.len() == 0 {
        seq![]
    } else if is_ascii_digit(s.last()) {
        ascii_digits(s.drop_last()).push(s.last())
    } else {
        ascii_digits(s.drop_last())
    }
}

/// The ordinal as `{:04}` renders it: zero-padded to four characters, the
/// sign counting as one, never truncated.
pub open spec fn padded_ordinal(n: int) -> Seq<char> {
    if n >= 0 {
        zero_padded(n as nat, 4)
    } else {
        seq!['-'] + zero_padded((-n) as nat, 3)
    }
}

/// `GRN/<digits of the business date>/<ordinal padded to four>`.
pub open spec fn grn_number(business_date: Seq<char>, ordinal: int) -> Seq<char> {
    seq!['G', 'R', 'N', '/'] + ascii_digits(business_date) + seq!['/'] + padded_ordinal(ordinal)
}

/// The business date contributes exactly its digits, in order: a date
/// made only of digits is kept whole, one without digits contributes
/// nothing, and a separator is dropped.
pub proof fn lemma_date_digits(s: Seq<char>, c: char)
    ensures
        forall|i: int| 0 <= i < ascii_digits(s).len() ==> is_ascii_digit(#[trigger] ascii_digits(s)[i]),
        (forall|i: int| 0 <= i < s.len() ==> is_ascii_digit(#[trigger] s[i])) ==> ascii_digits(s) == s,
        ascii_digits(s.push(c)) == if is_ascii_digit(c) { ascii_digits(s).push(c) } else { ascii_digits(s) },
    decreases s.len(),
{
    assert(s.push(c).drop_last() =~= s);
    if s.len() > 0 {
        lemma_date_digits(s.drop_last(), c);
        let p = ascii_digits(s.drop_last());
        assert forall|i: int| 0 <= i < ascii_digits(s).len() implies is_ascii_digit(#[trigger] ascii_digits(s)[i]) by {
            if i < p.len() {
                assert(ascii_digits(s)[i] == p[i]);
            }
        }
        if forall|i: int| 0 <= i < s.len() ==> is_ascii_digit(#[trigger] s[i]) {
            assert forall|i: int| 0 <= i < s.drop_last().len() implies is_ascii_digit(#[trigger] s.drop_last()[i]) by {
                assert(s.drop_last()[i] == s[i]);
            }
            assert(is_ascii_digit(s[s.len() - 1]));
            assert(s.drop_last().push(s.last()) =~= s);
        }
    } else {
        assert(s =~= Seq::<char>::empty());
    }
}

/// A non-negative ordinal is printed as digits that spell it, padded with
/// leading zeros to four characters and never truncated.
pub proof fn lemma_grn_ordinal_spells(ordinal: int)
    requires
        ordinal >= 0,
    ensures
        padded_ordinal(ordinal).len() >= 4,
        digits_value(padded_ordinal(ordinal)) == ordinal,
        forall|i: int| 0 <= i < padded_ordinal(ordinal).len() ==> '0' <= #[trigger] padded_ordinal(ordinal)[i] <= '9',
        ordinal <= 9999 ==> padded_ordinal(ordinal).len() == 4,
{
    lemma_zero_padded_spells(ordinal as nat, 4);
    if ordinal <= 9999 {
        lemma_decimal_short(ordinal as nat);
    }
}

proof fn lemma_decimal_short(n: nat)
    requires
        n <= 9999,
    ensures
        decimal(n).len() <= 4,
{
    reveal_with_fuel(decimal, 4);
    if n >= 10 {
        assert(n / 10 <= 999);
        if n / 10 >= 10 {
            assert(n / 100 <= 99);
            if n / 100 >= 10 {
                assert(n / 1000 <= 9);
                assert(decimal(n / 1000).len() == 1);
                assert(n / 100 / 10 == n / 1000);
                assert(decimal(n / 100).len() == 2);
                assert(n / 10 / 10 == n / 100);
                assert(decimal(n / 10).len() == 3);
            } else {
                assert(n / 10 / 10 == n / 100);
                assert(decimal(n / 10).len() == 2);
            }
        }
    }
}

/// The number of decimal digits of `n`.
pub fn decimal_len(n: u64) -> (r: usize)
    ensures
        r == decimal(n as nat).len(),
        1 <= r <= 20,
    decreases n,
{
    proof {
        reveal_with_fuel(pow10, 21);
        assert(pow10(20) == 100_000_000_000_000_000_000nat);
        lemma_decimal_len_upper(n as nat, 20);
    }
    if n < 10 {
        1
    } else {
        let k = decimal_len(n / 10);
        k + 1
    }
}

/// A number below `10^k` has at most `k` digits.
proof fn lemma_decimal_len_upper(n: nat, k: nat)
    requires
        k >= 1,
        n < pow10(k),
    ensures
        decimal(n).len() <= k,
    decreases n,
{
    if n >= 10 {
        assert(k >= 2) by {
            if k == 1 {
                assert(pow10(1) == 10 * pow10(0));
            }
        }
        assert(pow10(k) == 10 * pow10((k - 1) as nat));
        lemma_decimal_len_upper(n / 10, (k - 1) as nat);
    }
}

/// Ten to the `k`.
pub open spec fn pow10(k: nat) -> nat
    decreases k,
{
    if k == 0 {
        1
    } else {
        10 * pow10((k - 1) as nat)
    }
}

/// Appends `n` zero-padded to at least `width` digits.
pub fn push_zero_padded(s: &mut String, n: u64, width: usize)
    ensures
        final(s)@ == old(s)@ + zero_padded(n as nat, width as nat),
{
    let len = decimal_len(n);
    let ghost start = s@;
    let mut k: usize = len;
    while k < width
        invariant
            len <= k <= width || (width < len && k == len),
            len == decimal(n as nat).len(),
            s@ == start + Seq::new((k - len) as nat, |i: int| '0'),
        decreases width - k,
    {
        push_char(s, '0');
        proof {
            assert(start + Seq::new((k + 1 - len) as nat, |i: int| '0') =~= (start + Seq::new(
                (k - len) as nat,
                |i: int| '0',
            )).push('0'));
        }
        k += 1;
    }
    push_decimal(s, n);
    proof {
        if len >= width {
            assert(s@ =~= start + decimal(n as nat));
        } else {
            assert(k == width);
            assert(s@ =~= start + zero_padded(n as nat, width as nat));
        }
    }
}

/// Renders the issued goods-receipt number for one business day's
/// ordinal: `GRN/20260829/0001` for `("2026-08-29", 1)`.
pub fn format_grn_number(business_date: &str, ordinal: i64) -> (r: String)
    ensures
        r@ == grn_number(business_date@, ordinal as int),
{
    let mut out = String::new();
    push_char(&mut out, 'G');
    push_char(&mut out, 'R');
    push_char(&mut out, 'N');
    push_char(&mut out, '/');
    let ghost head = out@;
    let n = business_date.unicode_len();
    let mut i: usize = 0;
    while i < n
        invariant
            i <= n,
            n == business_date@.len(),
            out@ == head + ascii_digits(business_date@.subrange(0, i as int)),
        decreases n - i,
    {
        let c = business_date.get_char(i);
        if '0' <= c && c <= '9' {
            push_char(&mut out, c);
        }
        proof {
            let pre = business_date@.subrange(0, i as int + 1);
            assert(pre.drop_last() =~= business_date@.subrange(0, i as int));
            assert(pre.last() == c);
        }
        i += 1;
    }
    proof {
        assert(business_date@.subrange(0, n as int) =~= business_date@);
    }
    push_char(&mut out, '/');
    if ordinal >= 0 {
        push_zero_padded(&mut out, ordinal as u64, 4);
    } else {
        push_char(&mut out, '-');
        let magnitude: u64 = (-(ordinal as i128)) as u64;
        push_zero_padded(&mut out, magnitude, 3);
    }
    proof {
        assert(out@ =~= grn_number(business_date@, ordinal as int));
    }
    out
}

/// Every character of `ascii_digits(s)` is a digit.
proof fn lemma_ascii_digits_are_digits(s: Seq<char>)
    ensures
        forall|i: int| 0 <= i < ascii_digits(s).len() ==> is_ascii_digit(#[trigger] ascii_digits(s)[i]),
    decreases s.len(),
{
    if s.len() > 0 {
        lemma_ascii_digits_are_digits(s.drop_last());
        let pre = ascii_digits(s.drop_last());
        if is_ascii_digit(s.last()) {
            assert forall|i: int| 0 <= i < ascii_digits(s).len() implies is_ascii_digit(#[trigger] ascii_digits(s)[i]) by {
                if i < pre.len() {
                    assert(ascii_digits(s)[i] == pre[i]);
                }
            }
        }
    }
}

/// A decimal rendering starts with `0` only for zero itself.
proof fn lemma_decimal_leading_zero(n: nat)
    requires
        decimal(n)[0] == '0',
    ensures
        n == 0,
    decreases n,
{
    lemma_decimal_is_digits(n / 10);
    if n < 10 {
        assert(decimal(n)[0] == digit_char(n as int));
        assert(digit_char(n as int) == digit_char(0));
    } else {
        assert(decimal(n) == decimal(n / 10).push(digit_char((n % 10) as int)));
        assert(decimal(n)[0] == decimal(n / 10)[0]);
        lemma_decimal_leading_zero(n / 10);
    }
}

/// Every character of a zero-padded number is a digit.
proof fn lemma_zero_padded_digits(n: nat, w: nat)
    ensures
        forall|i: int| 0 <= i < zero_padded(n, w).len() ==> is_ascii_digit(#[trigger] zero_padded(n, w)[i]),
{
    lemma_decimal_is_digits(n);
    if decimal(n).len() < w {
        let z = Seq::new((w - decimal(n).len()) as nat, |i: int| '0');
        assert forall|i: int| 0 <= i < zero_padded(n, w).len() implies is_ascii_digit(#[trigger] zero_padded(n, w)[i]) by {
            if i < z.len() {
                assert(zero_padded(n, w)[i] == z[i]);
            } else {
                assert(zero_padded(n, w)[i] == decimal(n)[i - z.len()]);
            }
        }
    }
}

/// Zero-padding never merges two numbers.
proof fn lemma_zero_padded_injective(a: nat, b: nat, w: nat)
    requires
        zero_padded(a, w) == zero_padded(b, w),
    ensures
        a == b,
{
    lemma_decimal_is_digits(a);
    lemma_decimal_is_digits(b);
    let da = decimal(a);
    let db = decimal(b);
    let za = zero_padded(a, w);
    if da.len() >= w && db.len() >= w {
        lemma_decimal_injective(a, b);
    } else if da.len() < w && db.len() < w {
        if da.len() == db.len() {
            assert(da =~= za.subrange(w - da.len(), w as int));
            assert(db =~= zero_padded(b, w).subrange(w - db.len(), w as int));
            lemma_decimal_injective(a, b);
        } else if da.len() < db.len() {
            assert(za[w - db.len()] == '0');
            assert(zero_padded(b, w)[w - db.len()] == db[0]);
            lemma_decimal_leading_zero(b);
        } else {
            assert(zero_padded(b, w)[w - da.len()] == '0');
            assert(za[w - da.len()] == da[0]);
            lemma_decimal_leading_zero(a);
        }
    } else if da.len() >= w {
        assert(za.len() == da.len());
        assert(zero_padded(b, w).len() == w);
        assert(za[0] == da[0]);
        assert(zero_padded(b, w)[0] == '0');
        lemma_decimal_leading_zero(a);
    } else {
        assert(zero_padded(b, w).len() == db.len());
        assert(za.len() == w);
        assert(zero_padded(b, w)[0] == db[0]);
        assert(za[0] == '0');
        lemma_decimal_leading_zero(b);
    }
}

/// Receipt numbers never collide: two numbers with non-negative ordinals
/// are equal only when the business dates carry the same digits and the
/// ordinals are equal. Past four digits the ordinal grows, so no two
/// ordinals of one day share a number.
pub proof fn lemma_grn_number_injective(d1: Seq<char>, o1: int, d2: Seq<char>, o2: int)
    requires
        0 <= o1,
        0 <= o2,
        grn_number(d1, o1) == grn_number(d2, o2),
    ensures
        ascii_digits(d1) == ascii_digits(d2),
        o1 == o2,
{
    let a1 = ascii_digits(d1);
    let a2 = ascii_digits(d2);
    let p1 = padded_ordinal(o1);
    let p2 = padded_ordinal(o2);
    lemma_ascii_digits_are_digits(d1);
    lemma_ascii_digits_are_digits(d2);
    let g1 = grn_number(d1, o1);
    let g2 = grn_number(d2, o2);
    let t1 = a1 + seq!['/'] + p1;
    let t2 = a2 + seq!['/'] + p2;
    assert(t1 =~= g1.subrange(4, g1.len() as int));
    assert(t2 =~= g2.subrange(4, g2.len() as int));
    assert(t1 == t2);
    if a1.len() < a2.len() {
        assert(t1[a1.len() as int] == '/');
        assert(t2[a1.len() as int] == a2[a1.len() as int]);
    } else if a2.len() < a1.len() {
        assert(t2[a2.len() as int] == '/');
        assert(t1[a2.len() as int] == a1[a2.len() as int]);
    }
    assert(a1 =~= t1.subrange(0, a1.len() as int));
    assert(a2 =~= t2.subrange(0, a2.len() as int));
    assert(p1 =~= t1.subrange(a1.len() as int + 1, t1.len() as int));
    assert(p2 =~= t2.subrange(a2.len() as int + 1, t2.len() as int));
    lemma_zero_padded_injective(o1 as nat, o2 as nat, 4);
}

} // verus!
