//! Order-side rules: the short display number an order is shown under,
//! the status gates that guard amendment, confirmation and sending to the
//! kitchen, the line-total formula, and the kitchen ticket state machine.

use vstd::prelude::*;
use crate::error::{DbError, DbResult, InvalidInput};
use crate::model::OrderItemModifier;
use crate::text::{decimal, digit_char, opt_str_view, push_char, push_decimal, str_eq};

verus! {

/// The stored integer of a boolean column: 1 or 0.
pub fn bool_to_i64(b: bool) -> (r: i64)
    ensures
        r == (if b { 1i64 } else { 0i64 }),
{
    if b {
        1
    } else {
        0
    }
}

/// A stored integer read as a boolean: anything but 0 is true.
pub fn i64_to_bool(v: i64) -> (r: bool)
    ensures
        r == (v != 0),
{
    v != 0
}

// ------------------------------------------------------ display number ----

/// The `d`-th capital letter (`0` is `A`).
pub open spec fn letter(d: int) -> char {
    (65 + d) as char
}

/// The bijective base-26 letters of `n` (1-based): `1` is `A`, `26` is
/// `Z`, `27` is `AA`; `0` has no letters.
pub open spec fn letters(n: nat) -> Seq<char>
    decreases n,
{
    if n == 0 {
        seq![]
    } else {
        letters(((n - 1) / 26) as nat).push(letter((n - 1) % 26))
    }
}

/// The letters of a 0-based block: block `0` is `A`, `25` is `Z`, `26` is
/// `AA`. A negative block has none.
pub open spec fn block_letters_spec(block: int) -> Seq<char> {
    if block + 1 <= 0 {
        seq![]
    } else {
        letters((block + 1) as nat)
    }
}

/// Renders `block` (0-based) as bijective base-26 letters, the scheme
/// spreadsheet columns use, so no two blocks ever share letters.
pub fn block_letters(block: i64) -> (r: String)
    requires
        block < i64::MAX,
    ensures
        r@ == block_letters_spec(block as int),
{
    let mut n: i64 = block + 1;
    let ghost n0: int = n as int;
    let mut acc: Vec<char> = Vec::new();
    while n > 0
        invariant
            n0 == block + 1,
            n0 > 0 ==> n >= 0 && letters(n0 as nat) == letters(n as nat) + acc@,
            n0 <= 0 ==> n == n0 && acc@.len() == 0,
        decreases n,
    {
        let rem = (n - 1) % 26;
        let c = (65u8 + rem as u8) as char;
        proof {
            let m = n as nat;
            assert(letters(m) == letters(((m - 1) / 26) as nat).push(letter((m - 1) % 26)));
            assert(c == letter((m - 1) % 26));
            assert(letters(((m - 1) / 26) as nat).push(c) + acc@ =~= letters(((m - 1) / 26) as nat)
                + seq![c].add(acc@));
        }
        acc.insert(0, c);
        n = (n - 1) / 26;
    }
    let mut out = String::new();
    let k = acc.len();
    let mut i: usize = 0;
    while i < k
        invariant
            i <= k,
            k == acc@.len(),
            out@ == acc@.subrange(0, i as int),
        decreases k - i,
    {
        push_char(&mut out, acc[i]);
        proof {
            assert(out@ =~= acc@.subrange(0, i as int + 1));
        }
        i += 1;
    }
    proof {
        assert(out@ =~= acc@);
        if n0 > 0 {
            assert(letters(n as nat) =~= seq![]);
            assert(letters(n0 as nat) =~= acc@);
        } else {
            assert(out@ =~= seq![]);
        }
    }
    out
}

/// `a / b` truncated toward zero (for `b > 0`).
pub open spec fn trunc_div(a: int, b: int) -> int {
    if a >= 0 { a / b } else { -((-a) / b) }
}

/// The remainder of `a / b` truncated toward zero (for `b > 0`): the sign
/// is `a`'s.
pub open spec fn trunc_rem(a: int, b: int) -> int {
    if a >= 0 { a % b } else { -((-a) % b) }
}

/// An integer in decimal, with a leading `-` when negative.
pub open spec fn signed_decimal(n: int) -> Seq<char> {
    if n < 0 { seq!['-'] + decimal((-n) as nat) } else { decimal(n as nat) }
}

/// The display string of a 1-based index: `#`, the letters of its block
/// of 999, then its `1..=999` number within the block.
pub open spec fn display_number(sequence_index: int) -> Seq<char> {
    let z = sequence_index - 1;
    seq!['#'] + block_letters_spec(trunc_div(z, 999)) + signed_decimal(trunc_rem(z, 999) + 1)
}

/// Formats a 1-based sequence index as the short display string: `1` is
/// `#A1`, `999` is `#A999`, `1000` is `#B1`, and after block `Z` come
/// `AA`, `AB`, ..., so the formatter never repeats.
pub fn format_order_display_number(sequence_index: i64) -> (r: String)
    requires
        sequence_index > i64::MIN,
    ensures
        r@ == display_number(sequence_index as int),
{
    let zero_based: i64 = sequence_index - 1;
    let block: i64;
    let num: i64;
    if zero_based >= 0 {
        block = zero_based / 999;
        num = zero_based % 999 + 1;
    } else {
        let a: i128 = -(zero_based as i128);
        block = -((a / 999) as i64);
        num = -((a % 999) as i64) + 1;
    }
    let mut out = String::new();
    push_char(&mut out, '#');
    let letters_str = block_letters(block);
    let ghost before_letters = out@;
    let m = letters_str.unicode_len();
    let mut i: usize = 0;
    while i < m
        invariant
            i <= m,
            m == letters_str@.len(),
            out@ == before_letters + letters_str@.subrange(0, i as int),
        decreases m - i,
    {
        push_char(&mut out, letters_str.get_char(i));
        proof {
            assert(out@ =~= before_letters + letters_str@.subrange(0, i as int + 1));
        }
        i += 1;
    }
    proof {
        assert(letters_str@.subrange(0, m as int) =~= letters_str@);
    }
    if num < 0 {
        push_char(&mut out, '-');
        push_decimal(&mut out, (-num) as u64);
    } else {
        push_decimal(&mut out, num as u64);
    }
    proof {
        assert(out@ =~= display_number(sequence_index as int));
    }
    out
}

/// Every character of `letters(n)` is a capital letter.
pub proof fn lemma_letters_are_capitals(n: nat)
    ensures
        forall|i: int| 0 <= i < letters(n).len() ==> 'A' <= #[trigger] letters(n)[i] <= 'Z',
    decreases n,
{
    if n > 0 {
        let p = ((n - 1) / 26) as nat;
        lemma_letters_are_capitals(p);
        let c = letter((n - 1) % 26);
        assert('A' <= c <= 'Z');
        assert forall|i: int| 0 <= i < letters(n).len() implies 'A' <= #[trigger] letters(n)[i] <= 'Z' by {
            if i < letters(p).len() {
                assert(letters(n)[i] == letters(p)[i]);
            } else {
                assert(letters(n)[i] == c);
            }
        }
    }
}

/// The bijective base-26 value of a string of capitals, most significant
/// letter first: `A` is 1, `Z` is 26, `AA` is 27.
pub open spec fn base26_value(s: Seq<char>) -> int
    decreases s.len(),
{
    if s.len() == 0 {
        0
    } else {
        base26_value(s.drop_last()) * 26 + ((s.last() as int) - 64)
    }
}

proof fn lemma_letters_value(n: nat)
    ensures
        base26_value(letters(n)) == n,
    decreases n,
{
    if n > 0 {
        let p = ((n - 1) / 26) as nat;
        lemma_letters_value(p);
        assert(letters(n).drop_last() =~= letters(p));
        assert((letter((n - 1) % 26) as int) == 65 + (n - 1) % 26);
        assert(p * 26 + (n - 1) % 26 == n - 1);
    }
}

/// The letters of every non-negative block: at least one, each a capital,
/// and their bijective base-26 value is `block + 1`, so `0` is `A`, `25`
/// is `Z`, `26` is `AA` and `27` is `AB`.
pub proof fn lemma_block_letters_law(block: int)
    requires
        0 <= block,
    ensures
        block_letters_spec(block).len() >= 1,
        forall|i: int|
            0 <= i < block_letters_spec(block).len() ==> 'A' <= #[trigger] block_letters_spec(block)[i] <= 'Z',
        base26_value(block_letters_spec(block)) == block + 1,
{
    lemma_letters_are_capitals((block + 1) as nat);
    lemma_letters_value((block + 1) as nat);
}

/// Every character of `decimal(n)` is a digit, and there is at least one.
pub proof fn lemma_decimal_is_digits(n: nat)
    ensures
        decimal(n).len() >= 1,
        forall|i: int| 0 <= i < decimal(n).len() ==> '0' <= #[trigger] decimal(n)[i] <= '9',
    decreases n,
{
    if n >= 10 {
        lemma_decimal_is_digits(n / 10);
    }
}

/// The bijective letters never repeat: distinct numbers have distinct
/// letters.
pub proof fn lemma_letters_injective(a: nat, b: nat)
    requires
        letters(a) == letters(b),
    ensures
        a == b,
    decreases a,
{
    if a == 0 || b == 0 {
        if a != b {
            if a > 0 {
                assert(letters(a) == letters(((a - 1) / 26) as nat).push(letter((a - 1) % 26)));
            }
            if b > 0 {
                assert(letters(b) == letters(((b - 1) / 26) as nat).push(letter((b - 1) % 26)));
            }
            assert(letters(a).len() != letters(b).len());
        }
    } else {
        let pa = ((a - 1) / 26) as nat;
        let pb = ((b - 1) / 26) as nat;
        assert(letters(a) == letters(pa).push(letter((a - 1) % 26)));
        assert(letters(b) == letters(pb).push(letter((b - 1) % 26)));
        assert(letters(pa).push(letter((a - 1) % 26)).last() == letter((a - 1) % 26));
        assert(letters(pb).push(letter((b - 1) % 26)).last() == letter((b - 1) % 26));
        assert(letters(a).last() == letters(b).last());
        assert(letters(a).drop_last() =~= letters(pa));
        assert(letters(b).drop_last() =~= letters(pb));
        lemma_letters_injective(pa, pb);
        assert(letter((a - 1) % 26) == letter((b - 1) % 26));
        assert((a - 1) % 26 == (b - 1) % 26);
    }
}

/// Decimal renderings never repeat.
pub proof fn lemma_decimal_injective(a: nat, b: nat)
    requires
        decimal(a) == decimal(b),
    ensures
        a == b,
    decreases a,
{
    lemma_decimal_is_digits(a / 10);
    lemma_decimal_is_digits(b / 10);
    if a >= 10 {
        assert(decimal(a) == decimal(a / 10).push(digit_char((a % 10) as int)));
    }
    if b >= 10 {
        assert(decimal(b) == decimal(b / 10).push(digit_char((b % 10) as int)));
    }
    if a < 10 && b < 10 {
        assert(decimal(a)[0] == digit_char(a as int));
        assert(decimal(b)[0] == digit_char(b as int));
        assert(digit_char(a as int) == digit_char(b as int));
    } else if a >= 10 && b >= 10 {
        assert(decimal(a / 10).push(digit_char((a % 10) as int)).last() == digit_char((a % 10) as int));
        assert(decimal(b / 10).push(digit_char((b % 10) as int)).last() == digit_char((b % 10) as int));
        assert(decimal(a).last() == decimal(b).last());
        assert(digit_char((a % 10) as int) == digit_char((b % 10) as int));
        assert(a % 10 == b % 10);
        assert(decimal(a).drop_last() =~= decimal(a / 10));
        assert(decimal(b).drop_last() =~= decimal(b / 10));
        lemma_decimal_injective(a / 10, b / 10);
    } else {
        assert(decimal(a).len() != decimal(b).len());
    }
}

/// A string of capitals followed by a non-empty string of digits splits
/// back into the same two parts.
proof fn lemma_split_letters_digits(l1: Seq<char>, d1: Seq<char>, l2: Seq<char>, d2: Seq<char>)
    requires
        l1 + d1 == l2 + d2,
        d1.len() >= 1,
        d2.len() >= 1,
        forall|i: int| 0 <= i < l1.len() ==> 'A' <= #[trigger] l1[i] <= 'Z',
        forall|i: int| 0 <= i < l2.len() ==> 'A' <= #[trigger] l2[i] <= 'Z',
        forall|i: int| 0 <= i < d1.len() ==> '0' <= #[trigger] d1[i] <= '9',
        forall|i: int| 0 <= i < d2.len() ==> '0' <= #[trigger] d2[i] <= '9',
    ensures
        l1 == l2,
        d1 == d2,
{
    let s = l1 + d1;
    if l1.len() < l2.len() {
        assert(s[l1.len() as int] == d1[0]);
        assert(s[l1.len() as int] == (l2 + d2)[l1.len() as int]);
        assert((l2 + d2)[l1.len() as int] == l2[l1.len() as int]);
    } else if l2.len() < l1.len() {
        assert((l2 + d2)[l2.len() as int] == d2[0]);
        assert(s[l2.len() as int] == l1[l2.len() as int]);
    }
    assert(l1 =~= s.subrange(0, l1.len() as int));
    assert(l2 =~= (l2 + d2).subrange(0, l2.len() as int));
    assert(d1 =~= s.subrange(l1.len() as int, s.len() as int));
    assert(d2 =~= (l2 + d2).subrange(l2.len() as int, s.len() as int));
}

/// The display number never repeats: two different 1-based indexes always
/// render as two different strings, however far the counter runs.
pub proof fn lemma_display_number_injective(a: int, b: int)
    requires
        1 <= a,
        1 <= b,
        display_number(a) == display_number(b),
    ensures
        a == b,
{
    let za = a - 1;
    let zb = b - 1;
    let la = letters((za / 999 + 1) as nat);
    let lb = letters((zb / 999 + 1) as nat);
    let da = decimal((za % 999 + 1) as nat);
    let db = decimal((zb % 999 + 1) as nat);
    assert(display_number(a) == seq!['#'] + la + da);
    assert(display_number(b) == seq!['#'] + lb + db);
    assert(la + da =~= display_number(a).subrange(1, display_number(a).len() as int));
    assert(lb + db =~= display_number(b).subrange(1, display_number(b).len() as int));
    lemma_letters_are_capitals((za / 999 + 1) as nat);
    lemma_letters_are_capitals((zb / 999 + 1) as nat);
    lemma_decimal_is_digits((za % 999 + 1) as nat);
    lemma_decimal_is_digits((zb % 999 + 1) as nat);
    lemma_split_letters_digits(la, da, lb, db);
    lemma_letters_injective((za / 999 + 1) as nat, (zb / 999 + 1) as nat);
    lemma_decimal_injective((za % 999 + 1) as nat, (zb % 999 + 1) as nat);
}

/// Display numbers count in blocks of 999: the `j`-th order (`1..=999`)
/// of block `k` is shown as `#`, the block's letters, then `j`, so `1` is
/// `#A1`, `999` is `#A999` and `1000` is `#B1`.
pub proof fn lemma_display_number_blocks(k: int, j: int)
    requires
        0 <= k,
        1 <= j <= 999,
    ensures
        display_number(k * 999 + j) == seq!['#'] + block_letters_spec(k) + decimal(j as nat),
{
    let z = k * 999 + j - 1;
    vstd::arithmetic::div_mod::lemma_fundamental_div_mod_converse(z, 999, k, j - 1);
    assert(z >= 0);
    assert(trunc_div(z, 999) == k);
    assert(trunc_rem(z, 999) + 1 == j);
}

/// Block letters never repeat: distinct non-negative blocks render as
/// distinct letters.
pub proof fn lemma_block_letters_injective(a: int, b: int)
    requires
        0 <= a,
        0 <= b,
        block_letters_spec(a) == block_letters_spec(b),
    ensures
        a == b,
{
    lemma_letters_injective((a + 1) as nat, (b + 1) as nat);
}

// ------------------------------------------------------------ minting ----

/// Every character of `s` is ASCII, so each takes one byte in UTF-8.
pub open spec fn all_ascii(s: Seq<char>) -> bool {
    forall|i: int| 0 <= i < s.len() ==> (#[trigger] s[i] as u32) < 128
}

/// The text of the first `n` bytes of `s`, or `None` when `s` has fewer
/// bytes or byte `n` falls inside a character.
pub uninterp spec fn byte_prefix(s: Seq<char>, n: nat) -> Option<Seq<char>>;

/// `str::get(0..n)`. Trusted: the result is a function of `s` and `n`,
/// named `byte_prefix`; when present it is a prefix of `s`; and on an
/// all-ASCII `s`, where bytes and characters coincide, it is present
/// exactly when `s` has at least `n` characters and is then the first `n`.
#[verifier::external_body]
fn leading_bytes(s: &str, n: usize) -> (r: Option<&str>)
    ensures
        opt_str_view(r) == byte_prefix(s@, n as nat),
        r matches Some(p) ==> p@ == s@.take(p@.len() as int),
        all_ascii(s@) ==> (r is Some <==> s@.len() >= n),
        all_ascii(s@) && r is Some ==> r.unwrap()@ == s@.take(n as int),
{
    s.get(0..n)
}

/// The calendar day an order's `created_at` names: its first ten bytes,
/// the `YYYY-MM-DD` of an ISO 8601 timestamp. A `created_at` too short to
/// carry one is refused, naming it.
pub fn order_created_day(created_at: &str) -> (r: DbResult<String>)
    ensures
        match r {
            Ok(d) => byte_prefix(created_at@, 10) == Some(d@),
            Err(e) => byte_prefix(created_at@, 10) is None && (e matches DbError::InvalidInput(
                InvalidInput::CreatedAtTooShort(s),
            ) && s@ == created_at@),
        },
        all_ascii(created_at@) ==> (r is Ok <==> created_at@.len() >= 10),
        all_ascii(created_at@) && r is Ok ==> r.unwrap()@ == created_at@.take(10),
{
    match leading_bytes(created_at, 10) {
        Some(day) => Ok(day.to_owned()),
        None => Err(DbError::InvalidInput(InvalidInput::CreatedAtTooShort(created_at.to_owned()))),
    }
}

/// The display number of the next order of a day that already has
/// `existing` orders: the formatted index `existing + 1`.
pub fn next_display_number(existing: i64) -> (r: String)
    requires
        0 <= existing < i64::MAX,
    ensures
        r@ == display_number(existing + 1),
{
    format_order_display_number(existing + 1)
}

// --------------------------------------------------------- status gates ---

/// A status in which lines may still be added or resized.
pub open spec fn amendable_status(s: Seq<char>) -> bool {
    s == "DRAFT"@ || s == "CONFIRMED"@ || s == "SENT_TO_KITCHEN"@ || s == "PREPARING"@
}

/// A status from which the order may be sent to the kitchen.
pub open spec fn sendable_status(s: Seq<char>) -> bool {
    s == "CONFIRMED"@ || s == "SENT_TO_KITCHEN"@ || s == "PREPARING"@
}

/// The order statuses these gates speak of are different strings.
proof fn lemma_order_statuses_distinct()
    ensures
        "DRAFT"@ != "CONFIRMED"@,
        "DRAFT"@ != "SENT_TO_KITCHEN"@,
        "DRAFT"@ != "PREPARING"@,
        "CANCELLED"@ != "CONFIRMED"@,
        "CANCELLED"@ != "SENT_TO_KITCHEN"@,
        "CANCELLED"@ != "PREPARING"@,
        "CANCELLED"@ != "DRAFT"@,
        "PAID"@ != "CONFIRMED"@,
        "PAID"@ != "SENT_TO_KITCHEN"@,
        "PAID"@ != "PREPARING"@,
        "PAID"@ != "DRAFT"@,
        "READY"@ != "CONFIRMED"@,
        "READY"@ != "SENT_TO_KITCHEN"@,
        "READY"@ != "PREPARING"@,
        "READY"@ != "DRAFT"@,
        "SERVED"@ != "CONFIRMED"@,
        "SERVED"@ != "SENT_TO_KITCHEN"@,
        "SERVED"@ != "PREPARING"@,
        "SERVED"@ != "DRAFT"@,
{
    reveal_strlit("DRAFT");
    reveal_strlit("CONFIRMED");
    reveal_strlit("SENT_TO_KITCHEN");
    reveal_strlit("PREPARING");
    reveal_strlit("CANCELLED");
    reveal_strlit("PAID");
    reveal_strlit("READY");
    reveal_strlit("SERVED");
    assert("DRAFT"@.len() == 5);
    assert("CONFIRMED"@.len() == 9);
    assert("SENT_TO_KITCHEN"@.len() == 15);
    assert("PREPARING"@.len() == 9);
    assert("CANCELLED"@.len() == 9);
    assert("PAID"@.len() == 4);
    assert("READY"@.len() == 5);
    assert("SERVED"@.len() == 6);
    assert("CANCELLED"@[1] != "CONFIRMED"@[1]);
    assert("CANCELLED"@[0] != "PREPARING"@[0]);
    assert("CONFIRMED"@[0] != "PREPARING"@[0]);
    assert("READY"@[0] != "DRAFT"@[0]);
}

/// The order-status gates: lines may change while the order is DRAFT,
/// CONFIRMED, SENT_TO_KITCHEN or PREPARING; it may be sent to the kitchen
/// exactly from those statuses except DRAFT (it must be confirmed first);
/// and a cancelled, paid, ready or served order can do neither.
pub proof fn lemma_order_gates(s: Seq<char>)
    ensures
        amendable_status(s) <==> (s == "DRAFT"@ || s == "CONFIRMED"@ || s == "SENT_TO_KITCHEN"@
            || s == "PREPARING"@),
        sendable_status(s) <==> (s == "CONFIRMED"@ || s == "SENT_TO_KITCHEN"@ || s == "PREPARING"@),
        sendable_status(s) <==> amendable_status(s) && s != "DRAFT"@,
        !sendable_status("DRAFT"@),
        !sendable_status("CANCELLED"@) && !amendable_status("CANCELLED"@),
        !sendable_status("PAID"@) && !amendable_status("PAID"@),
        !sendable_status("READY"@) && !amendable_status("READY"@),
        !sendable_status("SERVED"@) && !amendable_status("SERVED"@),
{
    lemma_order_statuses_distinct();
}

/// Amendment (removal, reshaping) is legal only while the order is DRAFT.
/// `row` is the order's `(outlet_id, status)`, `None` when it does not
/// exist; the outlet id is returned on success.
pub fn require_draft_order(order_id: &str, row: Option<(String, String)>) -> (r: DbResult<String>)
    ensures
        match r {
            Ok(o) => row matches Some((out, st)) && st@ == "DRAFT"@ && o@ == out@,
            Err(e) => match row {
                None => e == DbError::NotFound("order"),
                Some((_, st)) => {
                    &&& st@ != "DRAFT"@
                    &&& e matches DbError::OrderNotAmendable { order_id: id, status: s }
                    &&& id@ == order_id@ && s@ == st@
                },
            },
        },
{
    match row {
        None => Err(DbError::NotFound("order")),
        Some((outlet_id, status)) => if str_eq(status.as_str(), "DRAFT") {
            Ok(outlet_id)
        } else {
            Err(DbError::OrderNotAmendable { order_id: order_id.to_owned(), status })
        },
    }
}

/// Lines may be added or resized while the order is DRAFT, CONFIRMED,
/// SENT_TO_KITCHEN or PREPARING; later statuses are terminal for line
/// changes.
pub fn require_amendable_for_item_changes(order_id: &str, row: Option<(String, String)>) -> (r: DbResult<String>)
    ensures
        match r {
            Ok(o) => row matches Some((out, st)) && amendable_status(st@) && o@ == out@,
            Err(e) => match row {
                None => e == DbError::NotFound("order"),
                Some((_, st)) => {
                    &&& !amendable_status(st@)
                    &&& e matches DbError::OrderNotAmendable { order_id: id, status: s }
                    &&& id@ == order_id@ && s@ == st@
                },
            },
        },
        r is Ok <==> (row matches Some((_, st)) && (st@ == "DRAFT"@ || st@ == "CONFIRMED"@
            || st@ == "SENT_TO_KITCHEN"@ || st@ == "PREPARING"@)),
{
    match row {
        None => Err(DbError::NotFound("order")),
        Some((outlet_id, status)) => {
            let st = status.as_str();
            if str_eq(st, "DRAFT") || str_eq(st, "CONFIRMED") || str_eq(st, "SENT_TO_KITCHEN") || str_eq(
                st,
                "PREPARING",
            ) {
                Ok(outlet_id)
            } else {
                Err(DbError::OrderNotAmendable { order_id: order_id.to_owned(), status })
            }
        },
    }
}

/// Confirmation is legal only from DRAFT.
pub fn require_draft_order_for_confirm(order_id: &str, row: Option<(String, String)>) -> (r: DbResult<String>)
    ensures
        match r {
            Ok(o) => row matches Some((out, st)) && st@ == "DRAFT"@ && o@ == out@,
            Err(e) => match row {
                None => e == DbError::NotFound("order"),
                Some((_, st)) => {
                    &&& st@ != "DRAFT"@
                    &&& e matches DbError::OrderNotConfirmable { order_id: id, status: s }
                    &&& id@ == order_id@ && s@ == st@
                },
            },
        },
{
    match row {
        None => Err(DbError::NotFound("order")),
        Some((outlet_id, status)) => if str_eq(status.as_str(), "DRAFT") {
            Ok(outlet_id)
        } else {
            Err(DbError::OrderNotConfirmable { order_id: order_id.to_owned(), status })
        },
    }
}

/// Sending to the kitchen is legal once confirmed and before a terminal
/// status: CONFIRMED, SENT_TO_KITCHEN or PREPARING.
pub fn require_sendable_order(order_id: &str, row: Option<(String, String)>) -> (r: DbResult<String>)
    ensures
        match r {
            Ok(o) => row matches Some((out, st)) && sendable_status(st@) && o@ == out@,
            Err(e) => match row {
                None => e == DbError::NotFound("order"),
                Some((_, st)) => {
                    &&& !sendable_status(st@)
                    &&& e matches DbError::OrderNotSendableToKitchen { order_id: id, status: s }
                    &&& id@ == order_id@ && s@ == st@
                },
            },
        },
        r is Ok <==> (row matches Some((_, st)) && (st@ == "CONFIRMED"@ || st@ == "SENT_TO_KITCHEN"@
            || st@ == "PREPARING"@)),
{
    match row {
        None => Err(DbError::NotFound("order")),
        Some((outlet_id, status)) => {
            let st = status.as_str();
            if str_eq(st, "CONFIRMED") || str_eq(st, "SENT_TO_KITCHEN") || str_eq(st, "PREPARING") {
                Ok(outlet_id)
            } else {
                Err(DbError::OrderNotSendableToKitchen { order_id: order_id.to_owned(), status })
            }
        },
    }
}

// ----------------------------------------------------------- line money ---

/// The sum of the modifiers' price deltas.
pub open spec fn delta_sum(mods: Seq<OrderItemModifier>) -> int
    decreases mods.len(),
{
    if mods.len() == 0 {
        0
    } else {
        delta_sum(mods.drop_last()) + mods.last().price_delta_paise
    }
}

/// Every running sum of the deltas fits an `i64`.
pub open spec fn delta_sums_fit(mods: Seq<OrderItemModifier>) -> bool {
    forall|k: int| 0 <= k <= mods.len() ==> i64::MIN <= #[trigger] delta_sum(mods.take(k)) <= i64::MAX
}

/// The line total: (unit price + the modifiers' price deltas) times the
/// quantity, all integer paise.
pub fn compute_line_total_paise(unit_price_paise: i64, quantity: i64, modifiers: &[OrderItemModifier]) -> (r: i64)
    requires
        delta_sums_fit(modifiers@),
        i64::MIN <= unit_price_paise + delta_sum(modifiers@) <= i64::MAX,
        i64::MIN <= (unit_price_paise + delta_sum(modifiers@)) * quantity <= i64::MAX,
    ensures
        r == (unit_price_paise + delta_sum(modifiers@)) * quantity,
{
    let n = modifiers.len();
    let mut sum: i64 = 0;
    let mut i: usize = 0;
    while i < n
        invariant
            i <= n,
            n == modifiers@.len(),
            delta_sums_fit(modifiers@),
            sum == delta_sum(modifiers@.take(i as int)),
        decreases n - i,
    {
        proof {
            assert(modifiers@.take(i as int + 1).drop_last() =~= modifiers@.take(i as int));
            assert(i64::MIN <= delta_sum(modifiers@.take(i as int + 1)) <= i64::MAX);
        }
        sum = sum + modifiers[i].price_delta_paise;
        i += 1;
    }
    proof {
        assert(modifiers@.take(n as int) =~= modifiers@);
    }
    (unit_price_paise + sum) * quantity
}

/// An order's total from its line subtotal, discount and taxes.
pub fn compute_order_total_paise(subtotal_paise: i64, discount_paise: i64, taxes_paise: i64) -> (r: i64)
    requires
        i64::MIN <= subtotal_paise - discount_paise <= i64::MAX,
        i64::MIN <= subtotal_paise - discount_paise + taxes_paise <= i64::MAX,
    ensures
        r == subtotal_paise - discount_paise + taxes_paise,
{
    subtotal_paise - discount_paise + taxes_paise
}

// ---------------------------------------------------------- kitchen -------

/// The legal ticket transitions: NEW to ACKNOWLEDGED or CANCELLED,
/// ACKNOWLEDGED to PREPARING or CANCELLED, PREPARING to READY or
/// CANCELLED, READY to SERVED.
pub open spec fn kot_transition_legal(from: Seq<char>, to: Seq<char>) -> bool {
    ||| from == "NEW"@ && (to == "ACKNOWLEDGED"@ || to == "CANCELLED"@)
    ||| from == "ACKNOWLEDGED"@ && (to == "PREPARING"@ || to == "CANCELLED"@)
    ||| from == "PREPARING"@ && (to == "READY"@ || to == "CANCELLED"@)
    ||| from == "READY"@ && to == "SERVED"@
}

/// Whether a ticket may move from `from` to `to`.
pub fn is_legal_kot_transition(from: &str, to: &str) -> (r: bool)
    ensures
        r == kot_transition_legal(from@, to@),
        r <==> (from@ == "NEW"@ && (to@ == "ACKNOWLEDGED"@ || to@ == "CANCELLED"@)) || (from@
            == "ACKNOWLEDGED"@ && (to@ == "PREPARING"@ || to@ == "CANCELLED"@)) || (from@ == "PREPARING"@
            && (to@ == "READY"@ || to@ == "CANCELLED"@)) || (from@ == "READY"@ && to@ == "SERVED"@),
{
    proof {
        lemma_kot_statuses_distinct();
    }
    if str_eq(from, "NEW") {
        str_eq(to, "ACKNOWLEDGED") || str_eq(to, "CANCELLED")
    } else if str_eq(from, "ACKNOWLEDGED") {
        str_eq(to, "PREPARING") || str_eq(to, "CANCELLED")
    } else if str_eq(from, "PREPARING") {
        str_eq(to, "READY") || str_eq(to, "CANCELLED")
    } else if str_eq(from, "READY") {
        str_eq(to, "SERVED")
    } else {
        false
    }
}

/// A ticket's place in its life: NEW, ACKNOWLEDGED, PREPARING, READY,
/// SERVED, then CANCELLED; `-1` for any other string.
pub open spec fn kot_stage(s: Seq<char>) -> int {
    if s == "NEW"@ {
        0
    } else if s == "ACKNOWLEDGED"@ {
        1
    } else if s == "PREPARING"@ {
        2
    } else if s == "READY"@ {
        3
    } else if s == "SERVED"@ {
        4
    } else if s == "CANCELLED"@ {
        5
    } else {
        -1
    }
}

/// Every legal transition moves a ticket strictly forward, so no sequence
/// of legal transitions ever returns a ticket to an earlier status, and
/// SERVED and CANCELLED are terminal.
pub proof fn lemma_kot_transitions_move_forward(from: Seq<char>, to: Seq<char>)
    requires
        kot_transition_legal(from, to),
    ensures
        0 <= kot_stage(from) < kot_stage(to),
        from != "SERVED"@ && from != "CANCELLED"@,
{
    lemma_kot_statuses_distinct();
}

/// The kitchen-ticket life: every status before READY (NEW, ACKNOWLEDGED,
/// PREPARING) may be cancelled and no other may; apart from cancelling, a
/// ticket moves only one step forward along NEW, ACKNOWLEDGED, PREPARING,
/// READY, SERVED; and SERVED and CANCELLED are terminal.
pub proof fn lemma_kot_life(from: Seq<char>, to: Seq<char>)
    ensures
        kot_transition_legal(from, "CANCELLED"@) <==> (from == "NEW"@ || from == "ACKNOWLEDGED"@
            || from == "PREPARING"@),
        to != "CANCELLED"@ ==> (kot_transition_legal(from, to) <==> (0 <= kot_stage(from) <= 3
            && kot_stage(to) == kot_stage(from) + 1)),
        !kot_transition_legal("SERVED"@, to),
        !kot_transition_legal("CANCELLED"@, to),
        kot_transition_legal(from, to) <==> (from == "NEW"@ && (to == "ACKNOWLEDGED"@ || to == "CANCELLED"@))
            || (from == "ACKNOWLEDGED"@ && (to == "PREPARING"@ || to == "CANCELLED"@)) || (from
            == "PREPARING"@ && (to == "READY"@ || to == "CANCELLED"@)) || (from == "READY"@ && to
            == "SERVED"@),
{
    lemma_kot_statuses_distinct();
}

/// The six ticket statuses are six different strings.
pub proof fn lemma_kot_statuses_distinct()
    ensures
        "NEW"@ != "ACKNOWLEDGED"@,
        "NEW"@ != "PREPARING"@,
        "NEW"@ != "READY"@,
        "NEW"@ != "SERVED"@,
        "NEW"@ != "CANCELLED"@,
        "ACKNOWLEDGED"@ != "PREPARING"@,
        "ACKNOWLEDGED"@ != "READY"@,
        "ACKNOWLEDGED"@ != "SERVED"@,
        "ACKNOWLEDGED"@ != "CANCELLED"@,
        "PREPARING"@ != "READY"@,
        "PREPARING"@ != "SERVED"@,
        "PREPARING"@ != "CANCELLED"@,
        "READY"@ != "SERVED"@,
        "READY"@ != "CANCELLED"@,
        "SERVED"@ != "CANCELLED"@,
{
    reveal_strlit("NEW");
    reveal_strlit("ACKNOWLEDGED");
    reveal_strlit("PREPARING");
    reveal_strlit("READY");
    reveal_strlit("SERVED");
    reveal_strlit("CANCELLED");
    assert("NEW"@.len() == 3);
    assert("ACKNOWLEDGED"@.len() == 12);
    assert("PREPARING"@.len() == 9);
    assert("READY"@.len() == 5);
    assert("SERVED"@.len() == 6);
    assert("CANCELLED"@.len() == 9);
    assert("PREPARING"@[0] != "CANCELLED"@[0]);
}

/// The next ticket sequence for an order: one past the highest so far,
/// or 1 for the first ticket.
pub fn next_kot_sequence(max_sequence: Option<i64>) -> (r: i64)
    requires
        max_sequence matches Some(m) ==> m < i64::MAX,
    ensures
        r == (match max_sequence {
            Some(m) => m + 1,
            None => 1,
        }),
{
    match max_sequence {
        Some(m) => m + 1,
        None => 1,
    }
}

/// An order is kitchen-ready when it has at least one non-cancelled ticket
/// and every non-cancelled ticket is READY.
pub fn order_is_kitchen_ready(active_tickets: i64, active_not_ready: i64) -> (r: bool)
    ensures
        r == (active_tickets > 0 && active_not_ready == 0),
{
    active_tickets > 0 && active_not_ready == 0
}

} // verus!
