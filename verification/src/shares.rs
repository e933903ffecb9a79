//! Whole-number arithmetic of the balance: proportional shares that lose
//! nothing to rounding, and sums of time series.
use vstd::prelude::*;
use vstd::arithmetic::div_mod::lemma_div_is_ordered;
use vstd::arithmetic::div_mod::lemma_div_multiples_vanish;
use vstd::arithmetic::div_mod::lemma_div_pos_is_pos;
use vstd::arithmetic::div_mod::lemma_hoist_over_denominator;
use vstd::arithmetic::mul::lemma_mul_inequality;
use vstd::arithmetic::mul::lemma_mul_is_commutative;
use vstd::arithmetic::mul::lemma_mul_nonnegative;

use crate::rennrenco2::div_floor;

verus! {

/// The part of `total` that falls to `part` out of `whole`, rounded down.
/// Nothing falls to any part of an empty whole.
pub open spec fn share(total: int, part: int, whole: int) -> int {
    if whole > 0 {
        (total * part) / whole
    } else {
        0
    }
}

/// The part of `total` that falls to the stretch from `lo` to `hi` of
/// `whole`. Consecutive stretches that cover the whole get parts that add up
/// to `total` exactly: what rounding takes from one, the next one receives.
pub open spec fn slice(total: int, lo: int, hi: int, whole: int) -> int {
    share(total, hi, whole) - share(total, lo, whole)
}

/// A share of a non negative total is between zero and the total.
pub proof fn lemma_share_bounds(total: int, part: int, whole: int)
    requires
        0 <= total,
        0 <= part <= whole,
    ensures
        0 <= share(total, part, whole) <= total,
{
    if whole > 0 {
        lemma_mul_nonnegative(total, part);
        lemma_div_pos_is_pos(total * part, whole);
        lemma_mul_inequality(part, whole, total);
        lemma_mul_is_commutative(total, part);
        lemma_mul_is_commutative(total, whole);
        lemma_div_is_ordered(total * part, total * whole, whole);
        lemma_mul_is_commutative(total, whole);
        lemma_div_multiples_vanish(total, whole);
    }
}

/// A share grows with the part.
pub proof fn lemma_share_monotone(total: int, lo: int, hi: int, whole: int)
    requires
        0 <= total,
        lo <= hi,
    ensures
        share(total, lo, whole) <= share(total, hi, whole),
{
    if whole > 0 {
        lemma_mul_inequality(lo, hi, total);
        lemma_mul_is_commutative(total, lo);
        lemma_mul_is_commutative(total, hi);
        lemma_div_is_ordered(total * lo, total * hi, whole);
    }
}

/// The share of the whole is the total; the share of nothing is nothing.
pub proof fn lemma_share_ends(total: int, whole: int)
    ensures
        share(total, 0, whole) == 0,
        whole > 0 ==> share(total, whole, whole) == total,
{
    if whole > 0 {
        assert(total * 0 == 0) by (nonlinear_arith);
        lemma_mul_is_commutative(total, whole);
        lemma_div_multiples_vanish(total, whole);
    }
}

/// Where the total is the whole, each part gets itself.
pub proof fn lemma_share_of_whole(part: int, whole: int)
    requires
        whole > 0,
    ensures
        share(whole, part, whole) == part,
{
    lemma_div_multiples_vanish(part, whole);
}

/// A stretch of a non negative total gets a non negative part, no larger
/// than the total.
pub proof fn lemma_slice_bounds(total: int, lo: int, hi: int, whole: int)
    requires
        0 <= total,
        0 <= lo <= hi <= whole,
    ensures
        0 <= slice(total, lo, hi, whole) <= total,
{
    lemma_share_monotone(total, lo, hi, whole);
    lemma_share_bounds(total, lo, whole);
    lemma_share_bounds(total, hi, whole);
}

/// Multiplying total, or part and whole, by `k` multiplies, or keeps, an
/// exact share.
pub proof fn lemma_share_scales(total: int, part: int, whole: int, k: int)
    requires
        k > 0,
        whole > 0,
        (total * part) % whole == 0,
    ensures
        share(k * total, k * part, k * whole) == k * share(total, part, whole),
        ((k * total) * (k * part)) % (k * whole) == 0,
{
    let q = (total * part) / whole;
    vstd::arithmetic::div_mod::lemma_fundamental_div_mod(total * part, whole);
    assert(total * part == whole * q);
    assert((k * total) * (k * part) == (k * q) * (k * whole) + 0) by (nonlinear_arith)
        requires
            total * part == whole * q,
    ;
    assert(k * whole > 0) by (nonlinear_arith)
        requires
            k > 0,
            whole > 0,
    ;
    vstd::arithmetic::div_mod::lemma_fundamental_div_mod_converse(
        (k * total) * (k * part),
        k * whole,
        k * q,
        0,
    );
}

/// The quotient of `(q * whole + r) * part` by `whole`, from smaller
/// products.
pub proof fn lemma_share_by_parts(q: int, r: int, part: int, whole: int)
    requires
        whole > 0,
    ensures
        share(q * whole + r, part, whole) == q * part + share(r, part, whole),
{
    assert((q * whole + r) * part == r * part + (q * part) * whole) by (nonlinear_arith);
    lemma_hoist_over_denominator(r * part, q * part, whole as nat);
}

/// The part of `total` that falls to `part` out of `whole`, rounded down.
pub fn share_of(total: u64, part: u64, whole: u64) -> (r: u64)
    requires
        part <= whole,
    ensures
        r == share(total as int, part as int, whole as int),
{
    if whole == 0 {
        0
    } else {
        proof {
            lemma_share_bounds(total as int, part as int, whole as int);
            assert(0 <= (total as int) * (part as int) <= u64::MAX * u64::MAX)
                by (nonlinear_arith)
                requires
                    0 <= total <= u64::MAX,
                    0 <= part <= u64::MAX,
            ;
        }
        let p: u128 = (total as u128) * (part as u128);
        let q: u128 = p / (whole as u128);
        q as u64
    }
}

/// The part of `total` that falls to the stretch from `lo` to `hi` of
/// `whole`.
pub fn slice_of(total: u64, lo: u64, hi: u64, whole: u64) -> (r: u64)
    requires
        lo <= hi <= whole,
    ensures
        r == slice(total as int, lo as int, hi as int, whole as int),
{
    proof {
        lemma_share_monotone(total as int, lo as int, hi as int, whole as int);
    }
    share_of(total, hi, whole) - share_of(total, lo, whole)
}

/// A share of a total of any sign is between zero and the total.
pub proof fn lemma_share_signed_bounds(total: int, part: int, whole: int)
    requires
        0 <= part <= whole,
    ensures
        total >= 0 ==> 0 <= share(total, part, whole) <= total,
        total <= 0 ==> total <= share(total, part, whole) <= 0,
{
    if total >= 0 {
        lemma_share_bounds(total, part, whole);
    } else if whole > 0 {
        assert(total * whole <= total * part <= 0) by (nonlinear_arith)
            requires
                total <= 0,
                0 <= part <= whole,
        ;
        lemma_div_is_ordered(total * whole, total * part, whole);
        lemma_div_is_ordered(total * part, 0, whole);
        lemma_mul_is_commutative(total, whole);
        lemma_div_multiples_vanish(total, whole);
    }
}

/// What falls to a stretch of a total of any sign is no larger than the
/// total in absolute value.
pub proof fn lemma_slice_signed_bounds(total: int, lo: int, hi: int, whole: int)
    requires
        0 <= lo <= hi <= whole,
    ensures
        total >= 0 ==> 0 <= slice(total, lo, hi, whole) <= total,
        total <= 0 ==> total <= slice(total, lo, hi, whole) <= 0,
{
    lemma_share_signed_bounds(total, lo, whole);
    lemma_share_signed_bounds(total, hi, whole);
    if total >= 0 {
        lemma_share_monotone(total, lo, hi, whole);
    } else if whole > 0 {
        assert(total * hi <= total * lo) by (nonlinear_arith)
            requires
                total <= 0,
                lo <= hi,
        ;
        lemma_div_is_ordered(total * hi, total * lo, whole);
    }
}

/// Dividing by `c` and then by `d`, rounding down each time, is dividing by
/// their product, for a dividend of any sign.
pub proof fn lemma_div_twice(x: int, c: int, d: int)
    requires
        0 < c,
        0 < d,
    ensures
        0 < c * d,
        (x / c) / d == x / (c * d),
{
    let q1 = x / c;
    let r1 = x % c;
    let q2 = q1 / d;
    let r2 = q1 % d;
    vstd::arithmetic::div_mod::lemma_fundamental_div_mod(x, c);
    vstd::arithmetic::div_mod::lemma_fundamental_div_mod(q1, d);
    vstd::arithmetic::div_mod::lemma_mod_bound(x, c);
    vstd::arithmetic::div_mod::lemma_mod_bound(q1, d);
    assert(0 < c * d) by (nonlinear_arith)
        requires
            0 < c,
            0 < d,
    ;
    assert(x == q2 * (c * d) + (c * r2 + r1)) by (nonlinear_arith)
        requires
            x == c * q1 + r1,
            q1 == d * q2 + r2,
    ;
    assert(0 <= c * r2 + r1 < c * d) by (nonlinear_arith)
        requires
            0 <= r1 < c,
            0 <= r2 < d,
    ;
    vstd::arithmetic::div_mod::lemma_fundamental_div_mod_converse(x, c * d, q2, c * r2 + r1);
}

/// A quotient does not change when dividend and divisor are multiplied by
/// the same positive number, for a dividend of any sign.
pub proof fn lemma_div_common_factor(k: int, a: int, d: int)
    requires
        0 < k,
        0 < d,
    ensures
        0 < k * d,
        (k * a) / (k * d) == a / d,
{
    let q = a / d;
    let r = a % d;
    vstd::arithmetic::div_mod::lemma_fundamental_div_mod(a, d);
    vstd::arithmetic::div_mod::lemma_mod_bound(a, d);
    assert(0 < k * d) by (nonlinear_arith)
        requires
            0 < k,
            0 < d,
    ;
    assert(k * a == q * (k * d) + k * r) by (nonlinear_arith)
        requires
            a == d * q + r,
    ;
    assert(0 <= k * r < k * d) by (nonlinear_arith)
        requires
            0 <= r < d,
            0 < k,
    ;
    vstd::arithmetic::div_mod::lemma_fundamental_div_mod_converse(k * a, k * d, q, k * r);
}

/// Largest whole that a share of a total of any sign is computed for.
pub const MAX_WHOLE: u128 = 10_000_000_000_000_000_000;

/// Largest absolute value of a total of any sign that a share is computed
/// of.
pub const MAX_SIGNED_TOTAL: i128 = 1_000_000_000_000_000_000_000_000_000_000_000;

/// The part of a `total` of any sign that falls to `part` out of `whole`,
/// rounded down.
pub fn share_signed(total: i128, part: u128, whole: u128) -> (r: i128)
    requires
        part <= whole <= MAX_WHOLE,
        -MAX_SIGNED_TOTAL <= total <= MAX_SIGNED_TOTAL,
    ensures
        r == share(total as int, part as int, whole as int),
{
    if whole == 0 {
        0
    } else {
        let w: i128 = whole as i128;
        let p: i128 = part as i128;
        let q: i128 = div_floor(total, w);
        proof {
            vstd::arithmetic::div_mod::lemma_fundamental_div_mod(total as int, w as int);
            vstd::arithmetic::div_mod::lemma_mod_bound(total as int, w as int);
            let rem = (total as int) % (w as int);
            assert(w * q == total - rem);
            assert(-(MAX_SIGNED_TOTAL + MAX_WHOLE) <= q * w <= MAX_SIGNED_TOTAL + MAX_WHOLE)
                by (nonlinear_arith)
                requires
                    w * q == total - rem,
                    0 <= rem < w,
                    w <= MAX_WHOLE,
                    -MAX_SIGNED_TOTAL <= total <= MAX_SIGNED_TOTAL,
            ;
            assert(-(MAX_SIGNED_TOTAL + MAX_WHOLE) <= q * p <= MAX_SIGNED_TOTAL + MAX_WHOLE)
                by (nonlinear_arith)
                requires
                    -(MAX_SIGNED_TOTAL + MAX_WHOLE) <= q * w <= MAX_SIGNED_TOTAL + MAX_WHOLE,
                    0 <= p <= w,
            ;
        }
        let qw: i128 = q * w;
        let rem: i128 = total - qw;
        proof {
            assert(rem == (total as int) % (w as int)) by (nonlinear_arith)
                requires
                    w * q == total - (total as int) % (w as int),
                    rem == total - q * w,
            ;
            assert(0 <= rem * p <= MAX_WHOLE * MAX_WHOLE) by (nonlinear_arith)
                requires
                    0 <= rem < w,
                    0 <= p <= w,
                    w <= MAX_WHOLE,
            ;
            lemma_share_by_parts(q as int, rem as int, p as int, w as int);
            assert(q * w + rem == total);
            lemma_share_bounds(rem as int, p as int, w as int);
        }
        let low: u128 = ((rem as u128) * part) / whole;
        q * p + (low as i128)
    }
}

/// The part of a `total` of any sign that falls to the stretch from `lo` to
/// `hi` of `whole`.
pub fn slice_signed(total: i128, lo: u128, hi: u128, whole: u128) -> (r: i128)
    requires
        lo <= hi <= whole <= MAX_WHOLE,
        -MAX_SIGNED_TOTAL <= total <= MAX_SIGNED_TOTAL,
    ensures
        r == slice(total as int, lo as int, hi as int, whole as int),
{
    proof {
        lemma_share_signed_bounds(total as int, lo as int, whole as int);
        lemma_share_signed_bounds(total as int, hi as int, whole as int);
    }
    share_signed(total, hi, whole) - share_signed(total, lo, whole)
}

/// A series of whole quantities as mathematical integers.
pub open spec fn ints(s: Seq<u64>) -> Seq<int> {
    Seq::new(s.len(), |i: int| s[i] as int)
}

/// Sum of a series.
pub open spec fn total(s: Seq<int>) -> int
    decreases s.len(),
{
    if s.len() == 0 {
        0
    } else {
        total(s.drop_last()) + s.last()
    }
}

/// The sum of the first `k + 1` terms is the sum of the first `k` plus the
/// next term.
pub proof fn lemma_total_step(s: Seq<int>, k: int)
    requires
        0 <= k < s.len(),
    ensures
        total(s.take(k + 1)) == total(s.take(k)) + s[k],
{
    assert(s.take(k + 1).drop_last() =~= s.take(k));
}

/// The sum of a series of terms between `lo` and `hi` is between the
/// products of the length with `lo` and with `hi`.
pub proof fn lemma_total_bounds(s: Seq<int>, lo: int, hi: int)
    requires
        forall|i: int| 0 <= i < s.len() ==> lo <= #[trigger] s[i] <= hi,
    ensures
        s.len() * lo <= total(s) <= s.len() * hi,
    decreases s.len(),
{
    if s.len() > 0 {
        lemma_total_bounds(s.drop_last(), lo, hi);
        assert((s.len() - 1) * lo + lo == s.len() * lo) by (nonlinear_arith);
        assert((s.len() - 1) * hi + hi == s.len() * hi) by (nonlinear_arith);
    } else {
        assert(0 * lo == 0 && 0 * hi == 0) by (nonlinear_arith);
    }
}

/// Term by term sums add up.
pub proof fn lemma_total_sum(a: Seq<int>, b: Seq<int>, c: Seq<int>)
    requires
        a.len() == b.len(),
        a.len() == c.len(),
        forall|i: int| 0 <= i < a.len() ==> #[trigger] c[i] == a[i] + b[i],
    ensures
        total(c) == total(a) + total(b),
    decreases a.len(),
{
    if a.len() > 0 {
        lemma_total_sum(a.drop_last(), b.drop_last(), c.drop_last());
    }
}

/// The sum of a series whose every term is `k` times the term of another is
/// `k` times the sum of that other.
pub proof fn lemma_total_scaled(a: Seq<int>, b: Seq<int>, k: int)
    requires
        a.len() == b.len(),
        forall|i: int| 0 <= i < a.len() ==> #[trigger] b[i] == k * a[i],
    ensures
        total(b) == k * total(a),
    decreases a.len(),
{
    if a.len() > 0 {
        lemma_total_scaled(a.drop_last(), b.drop_last(), k);
        assert(k * (total(a.drop_last()) + a.last()) == k * total(a.drop_last()) + k * a.last())
            by (nonlinear_arith);
    } else {
        assert(k * 0 == 0) by (nonlinear_arith);
    }
}

/// The sum of a series of zeros is zero.
pub proof fn lemma_total_zero(a: Seq<int>)
    requires
        forall|i: int| 0 <= i < a.len() ==> #[trigger] a[i] == 0,
    ensures
        total(a) == 0,
    decreases a.len(),
{
    if a.len() > 0 {
        lemma_total_zero(a.drop_last());
    }
}

/// Sum of a series of whole quantities.
pub fn vecsum(v: &Vec<u64>) -> (r: u128)
    ensures
        r == total(ints(v@)),
        r <= v.len() * u64::MAX,
{
    let mut acc: u128 = 0;
    let mut i: usize = 0;
    let ghost s = ints(v@);
    while i < v.len()
        invariant
            i <= v.len(),
            s == ints(v@),
            acc == total(s.take(i as int)),
            acc <= i * u64::MAX,
        decreases v.len() - i,
    {
        proof {
            lemma_total_step(s, i as int);
            assert((i + 1) * u64::MAX == i * u64::MAX + u64::MAX) by (nonlinear_arith);
            assert(i * u64::MAX <= usize::MAX * u64::MAX) by (nonlinear_arith)
                requires
                    i <= usize::MAX,
            ;
        }
        acc = acc + (v[i] as u128);
        i += 1;
    }
    assert(s.take(v.len() as int) =~= s);
    acc
}

} // verus!
