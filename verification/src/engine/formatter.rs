//! Ordering and display formatting of directory entries.

use std::cmp::Ordering;
use vstd::prelude::*;
use vstd::string::StringSliceAdditionalSpecFns;

verus! {

/// Three-way result of a comparison as an integer: negative, zero or positive.
pub open spec fn sign_of(a: int, b: int) -> int {
    if a < b {
        -1
    } else if a == b {
        0
    } else {
        1
    }
}

/// The `Ordering` that an integer comparison result stands for.
pub open spec fn ordering_of(x: int) -> Ordering {
    if x < 0 {
        Ordering::Less
    } else if x == 0 {
        Ordering::Equal
    } else {
        Ordering::Greater
    }
}

/// An ASCII digit byte.
pub open spec fn digit_byte(b: u8) -> bool {
    48 <= b <= 57
}

/// ASCII lowercase of a byte.
pub open spec fn lower_byte(b: u8) -> u8 {
    if 65 <= b <= 90 {
        (b + 32) as u8
    } else {
        b
    }
}

/// The index just past the run of digits that starts at `i`.
pub open spec fn digit_run_end(s: Seq<u8>, i: int) -> int
    decreases s.len() - i,
{
    if 0 <= i < s.len() && digit_byte(s[i]) {
        digit_run_end(s, i + 1)
    } else {
        i
    }
}

/// The index of the first byte in `[i, e)` that is not the digit `0`, or `e`.
pub open spec fn zeros_end(s: Seq<u8>, i: int, e: int) -> int
    decreases e - i,
{
    if 0 <= i < e && i < s.len() && s[i] == 48u8 {
        zeros_end(s, i + 1, e)
    } else {
        i
    }
}

/// The first offset `k' >= k` below `len` where `a[za + k']` and `b[zb + k']` differ, or `len`.
pub open spec fn first_digit_diff(a: Seq<u8>, za: int, b: Seq<u8>, zb: int, len: int, k: int) -> int
    decreases len - k,
{
    if k < len && a[za + k] == b[zb + k] {
        first_digit_diff(a, za, b, zb, len, k + 1)
    } else {
        k
    }
}

/// Natural ("human") comparison of `a[i..]` with `b[j..]`: runs of digits compare by
/// numeric value (then by the number of leading zeros), other bytes compare one by one,
/// ASCII-case-folded when `fold` holds; when one side runs out, the whole lengths decide.
pub open spec fn natural_order(a: Seq<u8>, b: Seq<u8>, i: int, j: int, fold: bool) -> int
    decreases a.len() - i, b.len() - j,
{
    if i < 0 || j < 0 || i >= a.len() || j >= b.len() {
        sign_of(a.len() as int, b.len() as int)
    } else if digit_byte(a[i]) && digit_byte(b[j]) {
        let ei = digit_run_end(a, i);
        let ej = digit_run_end(b, j);
        let zi = zeros_end(a, i, ei);
        let zj = zeros_end(b, j, ej);
        let li = ei - zi;
        let lj = ej - zj;
        if li != lj {
            sign_of(li, lj)
        } else {
            let k = first_digit_diff(a, zi, b, zj, li, 0);
            if k < li {
                sign_of(a[zi + k] as int, b[zj + k] as int)
            } else if zi - i != zj - j {
                sign_of(zi - i, zj - j)
            } else {
                proof {
                    lemma_digit_run_end_bounds(a, i);
                    lemma_digit_run_end_bounds(b, j);
                }
                natural_order(a, b, ei, ej, fold)
            }
        }
    } else {
        let x = if fold { lower_byte(a[i]) } else { a[i] };
        let y = if fold { lower_byte(b[j]) } else { b[j] };
        if x != y {
            sign_of(x as int, y as int)
        } else {
            natural_order(a, b, i + 1, j + 1, fold)
        }
    }
}

pub proof fn lemma_digit_run_end_bounds(s: Seq<u8>, i: int)
    requires
        0 <= i <= s.len(),
    ensures
        i <= digit_run_end(s, i) <= s.len(),
        forall|k: int| i <= k < digit_run_end(s, i) ==> digit_byte(#[trigger] s[k]),
        digit_run_end(s, i) < s.len() ==> !digit_byte(s[digit_run_end(s, i)]),
    decreases s.len() - i,
{
    if i < s.len() && digit_byte(s[i]) {
        lemma_digit_run_end_bounds(s, i + 1);
    }
}

proof fn lemma_zeros_end_bounds(s: Seq<u8>, i: int, e: int)
    requires
        0 <= i <= e <= s.len(),
    ensures
        i <= zeros_end(s, i, e) <= e,
        forall|k: int| i <= k < zeros_end(s, i, e) ==> #[trigger] s[k] == 48u8,
        zeros_end(s, i, e) < e ==> s[zeros_end(s, i, e)] != 48u8,
    decreases e - i,
{
    if i < e && s[i] == 48u8 {
        lemma_zeros_end_bounds(s, i + 1, e);
    }
}

proof fn lemma_first_digit_diff_symmetric(a: Seq<u8>, za: int, b: Seq<u8>, zb: int, len: int, k: int)
    ensures
        first_digit_diff(a, za, b, zb, len, k) == first_digit_diff(b, zb, a, za, len, k),
    decreases len - k,
{
    if k < len && a[za + k] == b[zb + k] {
        lemma_first_digit_diff_symmetric(a, za, b, zb, len, k + 1);
    }
}

proof fn lemma_first_digit_diff_same(a: Seq<u8>, za: int, len: int, k: int)
    ensures
        k <= len ==> first_digit_diff(a, za, a, za, len, k) == len,
    decreases len - k,
{
    if k < len {
        lemma_first_digit_diff_same(a, za, len, k + 1);
    }
}

proof fn lemma_first_digit_diff_bounds(a: Seq<u8>, za: int, b: Seq<u8>, zb: int, len: int, k: int)
    requires
        0 <= k <= len,
    ensures
        k <= first_digit_diff(a, za, b, zb, len, k) <= len,
        first_digit_diff(a, za, b, zb, len, k) < len ==> a[za + first_digit_diff(a, za, b, zb, len, k)]
            != b[zb + first_digit_diff(a, za, b, zb, len, k)],
    decreases len - k,
{
    if k < len && a[za + k] == b[zb + k] {
        lemma_first_digit_diff_bounds(a, za, b, zb, len, k + 1);
    }
}

proof fn lemma_first_digit_diff_full(a: Seq<u8>, za: int, b: Seq<u8>, zb: int, len: int, k: int)
    requires
        0 <= k <= len,
        first_digit_diff(a, za, b, zb, len, k) == len,
    ensures
        forall|m: int| k <= m < len ==> #[trigger] a[za + m] == b[zb + m],
    decreases len - k,
{
    if k < len {
        lemma_first_digit_diff_full(a, za, b, zb, len, k + 1);
    }
}

/// Compared naturally without case folding, two names are equal only when they are the same
/// name (from position `i` on in both).
pub proof fn lemma_natural_order_equal(a: Seq<u8>, b: Seq<u8>, i: int)
    requires
        0 <= i <= a.len(),
        i <= b.len(),
        natural_order(a, b, i, i, false) == 0,
    ensures
        a.subrange(i, a.len() as int) == b.subrange(i, b.len() as int),
    decreases a.len() - i,
{
    if i >= a.len() || i >= b.len() {
        assert(a.len() == b.len());
        assert(a.subrange(i, a.len() as int) =~= b.subrange(i, b.len() as int));
    } else if digit_byte(a[i]) && digit_byte(b[i]) {
        lemma_digit_run_end_bounds(a, i);
        lemma_digit_run_end_bounds(b, i);
        let ei = digit_run_end(a, i);
        let ej = digit_run_end(b, i);
        lemma_zeros_end_bounds(a, i, ei);
        lemma_zeros_end_bounds(b, i, ej);
        let zi = zeros_end(a, i, ei);
        let zj = zeros_end(b, i, ej);
        let li = ei - zi;
        assert(li == ej - zj);
        lemma_first_digit_diff_bounds(a, zi, b, zj, li, 0);
        assert(first_digit_diff(a, zi, b, zj, li, 0) == li);
        assert(zi == zj);
        lemma_first_digit_diff_full(a, zi, b, zj, li, 0);
        lemma_natural_order_equal(a, b, ei);
        assert forall|m: int| i <= m < ei implies a[m] == b[m] by {
            if m < zi {
                assert(a[m] == 48u8 && b[m] == 48u8);
            } else {
                assert(a[zi + (m - zi)] == b[zj + (m - zi)]);
            }
        }
        assert(a.subrange(i, a.len() as int) =~= a.subrange(i, ei) + a.subrange(ei, a.len() as int));
        assert(b.subrange(i, b.len() as int) =~= b.subrange(i, ei) + b.subrange(ei, b.len() as int));
        assert(a.subrange(i, ei) =~= b.subrange(i, ei));
    } else {
        assert(a[i] == b[i]);
        lemma_natural_order_equal(a, b, i + 1);
        assert(a.subrange(i, a.len() as int) =~= seq![a[i]] + a.subrange(i + 1, a.len() as int));
        assert(b.subrange(i, b.len() as int) =~= seq![b[i]] + b.subrange(i + 1, b.len() as int));
    }
}

/// A name that is a proper prefix of another comes first in the natural order, with or
/// without case folding, when the shorter name holds no digit (so that the comparison is not
/// settled inside a run of digits).
pub proof fn lemma_natural_order_prefix_first(a: Seq<u8>, b: Seq<u8>, i: int, fold: bool)
    requires
        0 <= i <= a.len(),
        a.len() < b.len(),
        forall|k: int| 0 <= k < a.len() ==> #[trigger] a[k] == b[k],
        forall|k: int| 0 <= k < a.len() ==> !digit_byte(#[trigger] a[k]),
    ensures
        natural_order(a, b, i, i, fold) == -1,
    decreases a.len() - i,
{
    if i < a.len() {
        assert(a[i] == b[i]);
        assert(!digit_byte(a[i]));
        lemma_natural_order_prefix_first(a, b, i + 1, fold);
    }
}

/// The ASCII lowercase of every byte of a byte string.
pub open spec fn lowered_bytes(s: Seq<u8>) -> Seq<u8> {
    s.map_values(|b: u8| lower_byte(b))
}

/// Compared naturally with ASCII case folded, two names are equal only when they are the same
/// name up to ASCII case (from position `i` on in both).
pub proof fn lemma_natural_order_equal_folded(a: Seq<u8>, b: Seq<u8>, i: int)
    requires
        0 <= i <= a.len(),
        i <= b.len(),
        natural_order(a, b, i, i, true) == 0,
    ensures
        lowered_bytes(a.subrange(i, a.len() as int)) == lowered_bytes(b.subrange(i, b.len() as int)),
    decreases a.len() - i,
{
    if i >= a.len() || i >= b.len() {
        assert(a.len() == b.len());
        assert(lowered_bytes(a.subrange(i, a.len() as int)) =~= lowered_bytes(b.subrange(i, b.len() as int)));
    } else if digit_byte(a[i]) && digit_byte(b[i]) {
        lemma_digit_run_end_bounds(a, i);
        lemma_digit_run_end_bounds(b, i);
        let ei = digit_run_end(a, i);
        let ej = digit_run_end(b, i);
        lemma_zeros_end_bounds(a, i, ei);
        lemma_zeros_end_bounds(b, i, ej);
        let zi = zeros_end(a, i, ei);
        let zj = zeros_end(b, i, ej);
        let li = ei - zi;
        assert(li == ej - zj);
        lemma_first_digit_diff_bounds(a, zi, b, zj, li, 0);
        assert(first_digit_diff(a, zi, b, zj, li, 0) == li);
        assert(zi == zj);
        lemma_first_digit_diff_full(a, zi, b, zj, li, 0);
        lemma_natural_order_equal_folded(a, b, ei);
        assert forall|m: int| i <= m < ei implies a[m] == b[m] by {
            if m < zi {
                assert(a[m] == 48u8 && b[m] == 48u8);
            } else {
                assert(a[zi + (m - zi)] == b[zj + (m - zi)]);
            }
        }
        let la = lowered_bytes(a.subrange(i, a.len() as int));
        let lb = lowered_bytes(b.subrange(i, b.len() as int));
        let ra = lowered_bytes(a.subrange(ei, a.len() as int));
        let rb = lowered_bytes(b.subrange(ei, b.len() as int));
        assert(ra == rb);
        assert(ra.len() == a.len() - ei && rb.len() == b.len() - ei);
        assert(la.len() == lb.len());
        assert forall|m: int| 0 <= m < la.len() implies la[m] == lb[m] by {
            if i + m < ei {
                assert(a[i + m] == b[i + m]);
            } else {
                assert(la[m] == ra[m - (ei - i)]);
                assert(lb[m] == rb[m - (ei - i)]);
            }
        }
        assert(la =~= lb);
    } else {
        assert(lower_byte(a[i]) == lower_byte(b[i]));
        lemma_natural_order_equal_folded(a, b, i + 1);
        let la = lowered_bytes(a.subrange(i, a.len() as int));
        let lb = lowered_bytes(b.subrange(i, b.len() as int));
        let ra = lowered_bytes(a.subrange(i + 1, a.len() as int));
        let rb = lowered_bytes(b.subrange(i + 1, b.len() as int));
        assert(ra == rb);
        assert(ra.len() == a.len() - i - 1 && rb.len() == b.len() - i - 1);
        assert(la.len() == lb.len());
        assert forall|m: int| 0 <= m < la.len() implies la[m] == lb[m] by {
            if m > 0 {
                assert(la[m] == ra[m - 1]);
                assert(lb[m] == rb[m - 1]);
            }
        }
        assert(la =~= lb);
    }
}

/// The natural order makes every name equal to itself.
pub proof fn lemma_natural_order_reflexive(a: Seq<u8>, i: int, fold: bool)
    ensures
        natural_order(a, a, i, i, fold) == 0,
    decreases a.len() - i,
{
    if i < 0 || i >= a.len() {
    } else if digit_byte(a[i]) {
        lemma_digit_run_end_bounds(a, i);
        let ei = digit_run_end(a, i);
        lemma_zeros_end_bounds(a, i, ei);
        let zi = zeros_end(a, i, ei);
        lemma_first_digit_diff_same(a, zi, ei - zi, 0);
        lemma_natural_order_reflexive(a, ei, fold);
    } else {
        lemma_natural_order_reflexive(a, i + 1, fold);
    }
}

/// Swapping the two names flips the natural order.
pub proof fn lemma_natural_order_antisymmetric(a: Seq<u8>, b: Seq<u8>, i: int, j: int, fold: bool)
    ensures
        natural_order(a, b, i, j, fold) == -natural_order(b, a, j, i, fold),
    decreases a.len() - i, b.len() - j,
{
    if i < 0 || j < 0 || i >= a.len() || j >= b.len() {
    } else if digit_byte(a[i]) && digit_byte(b[j]) {
        let ei = digit_run_end(a, i);
        let ej = digit_run_end(b, j);
        let zi = zeros_end(a, i, ei);
        let zj = zeros_end(b, j, ej);
        lemma_first_digit_diff_symmetric(a, zi, b, zj, ei - zi, 0);
        lemma_digit_run_end_bounds(a, i);
        lemma_digit_run_end_bounds(b, j);
        lemma_natural_order_antisymmetric(a, b, ei, ej, fold);
    } else {
        lemma_natural_order_antisymmetric(a, b, i + 1, j + 1, fold);
    }
}

/// The natural order is a sign: -1, 0 or 1.
pub proof fn lemma_natural_order_sign(a: Seq<u8>, b: Seq<u8>, i: int, j: int, fold: bool)
    ensures
        -1 <= natural_order(a, b, i, j, fold) <= 1,
    decreases a.len() - i, b.len() - j,
{
    if i < 0 || j < 0 || i >= a.len() || j >= b.len() {
    } else if digit_byte(a[i]) && digit_byte(b[j]) {
        lemma_digit_run_end_bounds(a, i);
        lemma_digit_run_end_bounds(b, j);
        lemma_natural_order_sign(a, b, digit_run_end(a, i), digit_run_end(b, j), fold);
    } else {
        lemma_natural_order_sign(a, b, i + 1, j + 1, fold);
    }
}

/// Ten to the power `n`.
pub open spec fn pow10(n: nat) -> int
    decreases n,
{
    if n == 0 {
        1
    } else {
        10 * pow10((n - 1) as nat)
    }
}

/// The number that the decimal digits `s[i..e]` spell.
pub open spec fn digits_value(s: Seq<u8>, i: int, e: int) -> int
    decreases e - i,
{
    if e <= i {
        0
    } else {
        digits_value(s, i, e - 1) * 10 + (s[e - 1] - 48)
    }
}

proof fn lemma_pow10_grows(m: nat, n: nat)
    requires
        m <= n,
    ensures
        1 <= pow10(m) <= pow10(n),
    decreases n,
{
    if n > m {
        lemma_pow10_grows(m, (n - 1) as nat);
    } else if n > 0 {
        lemma_pow10_grows(0, (n - 1) as nat);
    }
}

/// The value of `s[i..e]` is that of `s[i..m]` shifted by the digits after `m`, plus that of
/// `s[m..e]`.
proof fn lemma_digits_value_split(s: Seq<u8>, i: int, m: int, e: int)
    requires
        i <= m <= e,
    ensures
        digits_value(s, i, e) == digits_value(s, i, m) * pow10((e - m) as nat) + digits_value(s, m, e),
    decreases e - m,
{
    if e > m {
        lemma_digits_value_split(s, i, m, e - 1);
        let a = digits_value(s, i, m);
        let p = pow10((e - 1 - m) as nat);
        let b = digits_value(s, m, e - 1);
        let d = s[e - 1] - 48;
        assert(pow10((e - m) as nat) == 10 * p);
        assert((a * p + b) * 10 + d == a * (10 * p) + (b * 10 + d)) by (nonlinear_arith);
    }
}

/// A run of digits is worth less than ten to the power of its length.
proof fn lemma_digits_value_bounds(s: Seq<u8>, i: int, e: int)
    requires
        0 <= i <= e <= s.len(),
        forall|k: int| i <= k < e ==> digit_byte(#[trigger] s[k]),
    ensures
        0 <= digits_value(s, i, e) < pow10((e - i) as nat),
    decreases e - i,
{
    if e > i {
        lemma_digits_value_bounds(s, i, e - 1);
        let v = digits_value(s, i, e - 1);
        let p = pow10((e - 1 - i) as nat);
        let d = s[e - 1] - 48;
        assert(digit_byte(s[e - 1]));
        assert(pow10((e - i) as nat) == 10 * p);
        assert(0 <= v * 10 + d < 10 * p) by (nonlinear_arith)
            requires
                0 <= v < p,
                0 <= d <= 9,
        ;
    }
}

/// A run of zeros is worth nothing.
proof fn lemma_digits_value_zeros(s: Seq<u8>, i: int, e: int)
    requires
        forall|k: int| i <= k < e ==> #[trigger] s[k] == 48u8,
    ensures
        digits_value(s, i, e) == 0,
    decreases e - i,
{
    if e > i {
        lemma_digits_value_zeros(s, i, e - 1);
        assert(s[e - 1] == 48u8);
    }
}

/// The same digits are worth the same.
proof fn lemma_digits_value_same(a: Seq<u8>, za: int, b: Seq<u8>, zb: int, len: int)
    requires
        forall|t: int| 0 <= t < len ==> #[trigger] a[za + t] == b[zb + t],
    ensures
        digits_value(a, za, za + len) == digits_value(b, zb, zb + len),
    decreases len,
{
    if len > 0 {
        lemma_digits_value_same(a, za, b, zb, len - 1);
        assert(a[za + (len - 1)] == b[zb + (len - 1)]);
    }
}

/// A run of digits that does not start with `0` is worth at least ten to the power of its
/// length less one.
proof fn lemma_digits_value_lead(s: Seq<u8>, i: int, e: int)
    requires
        0 <= i < e <= s.len(),
        forall|k: int| i <= k < e ==> digit_byte(#[trigger] s[k]),
        s[i] != 48u8,
    ensures
        digits_value(s, i, e) >= pow10((e - i - 1) as nat),
{
    lemma_digits_value_split(s, i, i + 1, e);
    lemma_digits_value_bounds(s, i + 1, e);
    assert(digit_byte(s[i]));
    let d = digits_value(s, i, i + 1);
    assert(digits_value(s, i, i) == 0);
    assert(d == s[i] - 48);
    let p = pow10((e - i - 1) as nat);
    let r = digits_value(s, i + 1, e);
    lemma_pow10_grows(0, (e - i - 1) as nat);
    assert(d * p + r >= p) by (nonlinear_arith)
        requires
            d >= 1,
            p >= 1,
            r >= 0,
    ;
}

/// Two runs of digits of one length that agree before offset `k` and differ at `k` are
/// ordered by their digits at `k`.
proof fn lemma_digits_value_first_diff(a: Seq<u8>, za: int, b: Seq<u8>, zb: int, len: int, k: int)
    requires
        0 <= k < len,
        0 <= za,
        za + len <= a.len(),
        0 <= zb,
        zb + len <= b.len(),
        forall|t: int| za <= t < za + len ==> digit_byte(#[trigger] a[t]),
        forall|t: int| zb <= t < zb + len ==> digit_byte(#[trigger] b[t]),
        forall|t: int| 0 <= t < k ==> #[trigger] a[za + t] == b[zb + t],
        a[za + k] < b[zb + k],
    ensures
        digits_value(a, za, za + len) < digits_value(b, zb, zb + len),
{
    lemma_digits_value_same(a, za, b, zb, k);
    lemma_digits_value_split(a, za, za + k, za + len);
    lemma_digits_value_split(b, zb, zb + k, zb + len);
    lemma_digits_value_split(a, za + k, za + k + 1, za + len);
    lemma_digits_value_split(b, zb + k, zb + k + 1, zb + len);
    lemma_digits_value_bounds(a, za + k + 1, za + len);
    lemma_digits_value_bounds(b, zb + k + 1, zb + len);
    let q = pow10((len - k - 1) as nat);
    let da = digits_value(a, za + k, za + k + 1);
    let db = digits_value(b, zb + k, zb + k + 1);
    assert(digits_value(a, za + k, za + k) == 0);
    assert(digits_value(b, zb + k, zb + k) == 0);
    assert(da == a[za + k] - 48);
    assert(db == b[zb + k] - 48);
    let ra = digits_value(a, za + k + 1, za + len);
    let rb = digits_value(b, zb + k + 1, zb + len);
    assert(da * q + ra < db * q + rb) by (nonlinear_arith)
        requires
            da < db,
            0 <= ra < q,
            0 <= rb,
    ;
}

/// The offsets before the first difference agree.
proof fn lemma_first_digit_diff_prefix(a: Seq<u8>, za: int, b: Seq<u8>, zb: int, len: int, k: int)
    requires
        0 <= k <= len,
    ensures
        forall|m: int| k <= m < first_digit_diff(a, za, b, zb, len, k) ==> #[trigger] a[za + m] == b[zb + m],
    decreases len - k,
{
    if k < len && a[za + k] == b[zb + k] {
        lemma_first_digit_diff_prefix(a, za, b, zb, len, k + 1);
    }
}

/// Numbers compare by value: where both names reach a run of digits, the name whose run spells
/// the smaller number comes first, whatever the leading zeros and the lengths of the runs.
pub proof fn lemma_natural_order_numbers_by_value(a: Seq<u8>, b: Seq<u8>, i: int, j: int, fold: bool)
    requires
        0 <= i < a.len(),
        0 <= j < b.len(),
        digit_byte(a[i]),
        digit_byte(b[j]),
        digits_value(a, i, digit_run_end(a, i)) < digits_value(b, j, digit_run_end(b, j)),
    ensures
        natural_order(a, b, i, j, fold) == -1,
{
    let ei = digit_run_end(a, i);
    let ej = digit_run_end(b, j);
    lemma_digit_run_end_bounds(a, i);
    lemma_digit_run_end_bounds(b, j);
    let zi = zeros_end(a, i, ei);
    let zj = zeros_end(b, j, ej);
    lemma_zeros_end_bounds(a, i, ei);
    lemma_zeros_end_bounds(b, j, ej);
    lemma_digits_value_split(a, i, zi, ei);
    lemma_digits_value_split(b, j, zj, ej);
    lemma_digits_value_zeros(a, i, zi);
    lemma_digits_value_zeros(b, j, zj);
    let va = digits_value(a, zi, ei);
    let vb = digits_value(b, zj, ej);
    assert(va < vb);
    let li = ei - zi;
    let lj = ej - zj;
    lemma_digits_value_bounds(a, zi, ei);
    lemma_digits_value_bounds(b, zj, ej);
    if li > lj {
        lemma_digits_value_lead(a, zi, ei);
        lemma_pow10_grows(lj as nat, (li - 1) as nat);
        assert(false);
    } else if li == lj {
        let k = first_digit_diff(a, zi, b, zj, li, 0);
        lemma_first_digit_diff_bounds(a, zi, b, zj, li, 0);
        lemma_first_digit_diff_prefix(a, zi, b, zj, li, 0);
        if k == li {
            lemma_digits_value_same(a, zi, b, zj, li);
            assert(false);
        } else if a[zi + k] > b[zj + k] {
            lemma_digits_value_first_diff(b, zj, a, zi, li, k);
            assert(false);
        }
    }
}

} // verus!

verus! {

/// Sign of the comparison of two integers as a byte-sized number.
fn sign_i8(a: usize, b: usize) -> (r: i8)
    ensures
        r as int == sign_of(a as int, b as int),
{
    if a < b {
        -1
    } else if a == b {
        0
    } else {
        1
    }
}

/// Natural comparison of two byte strings as a sign (-1, 0 or 1).
#[verifier::loop_isolation(false)]
pub fn natural_sign_bytes(a: &[u8], b: &[u8], fold_case: bool) -> (r: i8)
    ensures
        r as int == natural_order(a@, b@, 0, 0, fold_case),
{
    let mut i: usize = 0;
    let mut j: usize = 0;
    while i < a.len() && j < b.len()
        invariant
            i <= a.len(),
            j <= b.len(),
            natural_order(a@, b@, 0, 0, fold_case) == natural_order(a@, b@, i as int, j as int, fold_case),
        decreases a.len() - i,
    {
        let a_is_digit = 48 <= a[i] && a[i] <= 57;
        let b_is_digit = 48 <= b[j] && b[j] <= 57;
        if a_is_digit && b_is_digit {
            let start_i = i;
            let start_j = j;
            proof {
                lemma_digit_run_end_bounds(a@, start_i as int);
                lemma_digit_run_end_bounds(b@, start_j as int);
            }
            while i < a.len() && 48 <= a[i] && a[i] <= 57
                invariant
                    start_i <= i <= a.len(),
                    digit_run_end(a@, i as int) == digit_run_end(a@, start_i as int),
                decreases a.len() - i,
            {
                i += 1;
            }
            while j < b.len() && 48 <= b[j] && b[j] <= 57
                invariant
                    start_j <= j <= b.len(),
                    digit_run_end(b@, j as int) == digit_run_end(b@, start_j as int),
                decreases b.len() - j,
            {
                j += 1;
            }
            assert(digit_run_end(a@, i as int) == i as int);
            assert(digit_run_end(b@, j as int) == j as int);
            let mut nonzero_i = start_i;
            while nonzero_i < i && a[nonzero_i] == 48
                invariant
                    start_i <= nonzero_i <= i <= a.len(),
                    zeros_end(a@, nonzero_i as int, i as int) == zeros_end(a@, start_i as int, i as int),
                decreases i - nonzero_i,
            {
                nonzero_i += 1;
            }
            let mut nonzero_j = start_j;
            while nonzero_j < j && b[nonzero_j] == 48
                invariant
                    start_j <= nonzero_j <= j <= b.len(),
                    zeros_end(b@, nonzero_j as int, j as int) == zeros_end(b@, start_j as int, j as int),
                decreases j - nonzero_j,
            {
                nonzero_j += 1;
            }
            assert(zeros_end(a@, nonzero_i as int, i as int) == nonzero_i as int);
            assert(zeros_end(b@, nonzero_j as int, j as int) == nonzero_j as int);
            let len_i = i - nonzero_i;
            let len_j = j - nonzero_j;
            if len_i != len_j {
                return sign_i8(len_i, len_j);
            }
            let mut offset: usize = 0;
            while offset < len_i
                invariant
                    offset <= len_i,
                    len_i == i - nonzero_i,
                    len_j == len_i,
                    len_j == j - nonzero_j,
                    nonzero_i <= i <= a.len(),
                    nonzero_j <= j <= b.len(),
                    first_digit_diff(a@, nonzero_i as int, b@, nonzero_j as int, len_i as int, offset as int)
                        == first_digit_diff(a@, nonzero_i as int, b@, nonzero_j as int, len_i as int, 0),
                decreases len_i - offset,
            {
                let digit_i = a[nonzero_i + offset];
                let digit_j = b[nonzero_j + offset];
                if digit_i != digit_j {
                    assert(first_digit_diff(a@, nonzero_i as int, b@, nonzero_j as int, len_i as int, offset as int)
                        == offset as int);
                    assert(natural_order(a@, b@, start_i as int, start_j as int, fold_case)
                        == sign_of(digit_i as int, digit_j as int));
                    return if digit_i < digit_j {
                        -1
                    } else {
                        1
                    };
                }
                offset += 1;
            }
            let leading_zeros_i = nonzero_i - start_i;
            let leading_zeros_j = nonzero_j - start_j;
            if leading_zeros_i != leading_zeros_j {
                return sign_i8(leading_zeros_i, leading_zeros_j);
            }
        } else {
            let mut byte_i = a[i];
            let mut byte_j = b[j];
            if fold_case && ((65 <= byte_i && byte_i <= 90) || (65 <= byte_j && byte_j <= 90)) {
                if 65 <= byte_i && byte_i <= 90 {
                    byte_i = byte_i + 32;
                }
                if 65 <= byte_j && byte_j <= 90 {
                    byte_j = byte_j + 32;
                }
            }
            if byte_i != byte_j {
                return if byte_i < byte_j {
                    -1
                } else {
                    1
                };
            }
            i += 1;
            j += 1;
        }
    }
    sign_i8(a.len(), b.len())
}

/// Natural comparison of two byte strings.
pub fn natural_cmp_bytes(a: &[u8], b: &[u8], fold_case: bool) -> (r: Ordering)
    ensures
        r == ordering_of(natural_order(a@, b@, 0, 0, fold_case)),
{
    let s = natural_sign_bytes(a, b, fold_case);
    if s < 0 {
        Ordering::Less
    } else if s == 0 {
        Ordering::Equal
    } else {
        Ordering::Greater
    }
}

/// Natural, case-sensitive comparison of two names by their bytes.
pub fn natural_cmp_ascii(a: &str, b: &str) -> (r: Ordering)
    ensures
        r == ordering_of(natural_order(a.spec_bytes(), b.spec_bytes(), 0, 0, false)),
{
    natural_cmp_bytes(a.as_bytes(), b.as_bytes(), false)
}

/// Natural comparison of two names by their bytes, ASCII case folded.
pub fn natural_cmp_ascii_ci(a: &str, b: &str) -> (r: Ordering)
    ensures
        r == ordering_of(natural_order(a.spec_bytes(), b.spec_bytes(), 0, 0, true)),
{
    natural_cmp_bytes(a.as_bytes(), b.as_bytes(), true)
}

} // verus!
