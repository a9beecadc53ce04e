//! Fixed-point scalar arithmetic.
//!
//! The whole core measures lengths in thousandths of a pixel: an `i64`
//! coordinate of `1000` is one pixel.  `SCALE` is that unit.  Multiplying
//! or dividing two fixed-point quantities therefore needs a rescale, which
//! `fp_mul` and `fp_div` perform with truncation towards zero (the product
//! is formed in 128 bits, so only the final result must fit an `i64`).
//! `isqrt` is the integer square root used for vector lengths.

use vstd::prelude::*;

verus! {

/// Number of coordinate units in one pixel.
pub const SCALE: i64 = 1000;

/// Absolute value, as a mathematical integer.
pub open spec fn abs_of(a: int) -> int {
    if a < 0 {
        -a
    } else {
        a
    }
}

/// Smaller of two mathematical integers.
pub open spec fn min_of(a: int, b: int) -> int {
    if a <= b {
        a
    } else {
        b
    }
}

/// Larger of two mathematical integers.
pub open spec fn max_of(a: int, b: int) -> int {
    if a >= b {
        a
    } else {
        b
    }
}

/// Sign of a mathematical integer: -1, 0 or 1.
pub open spec fn sign_of(a: int) -> int {
    if a < 0 {
        -1
    } else if a == 0 {
        0
    } else {
        1
    }
}

/// Quotient of `a` by `b`, truncated towards zero (the rounding that
/// machine division performs), for a positive divisor.
pub open spec fn div_tz(a: int, b: int) -> int
    recommends
        b > 0,
{
    if a >= 0 {
        a / b
    } else {
        -((-a) / b)
    }
}

/// Fixed-point product: `a * b` brought back to scale, truncated towards zero.
pub open spec fn fp_mul_spec(a: int, b: int) -> int {
    div_tz(a * b, SCALE as int)
}

/// Fixed-point quotient: `a / b` brought up to scale, truncated towards zero.
pub open spec fn fp_div_spec(a: int, b: int) -> int
    recommends
        b > 0,
{
    div_tz(a * SCALE, b)
}

/// Component bounds under which a squared vector length fits the machine
/// arithmetic of [`crate::point::Point::length`].
pub open spec fn len_sq_in_range(x: int, y: int) -> bool {
    abs_of(x) <= 3_000_000_000 && abs_of(y) <= 3_000_000_000
}

/// `r` is the integer square root of `n`: the largest integer whose square
/// does not exceed `n`.
pub open spec fn is_isqrt(n: int, r: int) -> bool {
    0 <= r && r * r <= n && n < (r + 1) * (r + 1)
}

/// The integer square root of `n`, as a spec-level value.
pub open spec fn isqrt_spec(n: int) -> int {
    choose|r: int| is_isqrt(n, r)
}

/// Every nonnegative integer has an integer square root, and `isqrt_spec`
/// denotes it.
pub proof fn lemma_isqrt(n: int)
    requires
        n >= 0,
    ensures
        is_isqrt(n, isqrt_spec(n)),
    decreases n,
{
    if n == 0 {
        assert(is_isqrt(0, 0));
    } else {
        lemma_isqrt(n - 1);
        let r = isqrt_spec(n - 1);
        assert(is_isqrt(n - 1, r));
        if (r + 1) * (r + 1) <= n {
            assert((r + 1) * (r + 1) == n);
            assert(n < (r + 2) * (r + 2)) by (nonlinear_arith)
                requires
                    r >= 0,
                    (r + 1) * (r + 1) == n,
            ;
            assert(is_isqrt(n, r + 1));
        } else {
            assert(is_isqrt(n, r));
        }
    }
}

/// The integer square root is unique.
pub proof fn lemma_isqrt_unique(n: int, r: int)
    requires
        n >= 0,
        is_isqrt(n, r),
    ensures
        r == isqrt_spec(n),
{
    lemma_isqrt(n);
    let s = isqrt_spec(n);
    assert(r == s) by (nonlinear_arith)
        requires
            is_isqrt(n, r),
            is_isqrt(n, s),
    ;
}

/// A square root is bounded by any integer whose square exceeds `n`.
pub proof fn lemma_isqrt_le(n: int, r: int, m: int)
    requires
        is_isqrt(n, r),
        m >= 0,
        n < (m + 1) * (m + 1),
    ensures
        r <= m,
{
    assert(r <= m) by (nonlinear_arith)
        requires
            is_isqrt(n, r),
            m >= 0,
            n < (m + 1) * (m + 1),
    ;
}

/// A truncated quotient is bounded: if `|a| <= b * c` then `|a / b| <= c`.
pub proof fn lemma_div_tz_bound(a: int, b: int, c: int)
    requires
        b > 0,
        c >= 0,
        abs_of(a) <= b * c,
    ensures
        abs_of(div_tz(a, b)) <= c,
{
    let m = abs_of(a);
    assert(0 <= m / b <= c) by (nonlinear_arith)
        requires
            b > 0,
            c >= 0,
            0 <= m <= b * c,
    ;
}

/// Multiplication is monotone on nonnegative bounds.
pub proof fn lemma_mul_le(m: int, n: int, cm: int, cn: int)
    requires
        0 <= m <= cm,
        0 <= n <= cn,
    ensures
        m * n <= cm * cn,
{
    assert(m * n <= cm * cn) by (nonlinear_arith)
        requires
            0 <= m <= cm,
            0 <= n <= cn,
    ;
}

/// A fixed-point product is bounded: if `|a| * |b| <= SCALE * c` then
/// `|a * b / SCALE| <= c`.
pub proof fn lemma_fp_mul_bound(a: int, b: int, c: int)
    requires
        c >= 0,
        abs_of(a) * abs_of(b) <= 1000 * c,
    ensures
        abs_of(fp_mul_spec(a, b)) <= c,
{
    let m = abs_of(a);
    let n = abs_of(b);
    assert((a * b == m * n || a * b == -(m * n)) && m * n >= 0) by (nonlinear_arith)
        requires
            m == a || m == -a,
            n == b || n == -b,
            m >= 0,
            n >= 0,
    ;
    lemma_div_tz_bound(a * b, 1000, c);
}

/// The rescale loses at most the truncated remainder: a fixed-point
/// product, scaled back up, never exceeds the raw product of the
/// magnitudes.
pub proof fn lemma_fp_mul_tight(a: int, b: int)
    ensures
        1000 * abs_of(fp_mul_spec(a, b)) <= abs_of(a) * abs_of(b),
{
    let m = abs_of(a);
    let n = abs_of(b);
    assert((a * b == m * n || a * b == -(m * n)) && m * n >= 0) by (nonlinear_arith)
        requires
            m == a || m == -a,
            n == b || n == -b,
            m >= 0,
            n >= 0,
    ;
    assert(0 <= (m * n) / 1000 && 1000 * ((m * n) / 1000) <= m * n) by (nonlinear_arith)
        requires
            m * n >= 0,
    ;
}

/// A fixed-point product by a nonnegative factor keeps the sign of the
/// other factor.
pub proof fn lemma_fp_mul_sign(a: int, b: int)
    requires
        b >= 0,
    ensures
        a >= 0 ==> fp_mul_spec(a, b) >= 0,
        a <= 0 ==> fp_mul_spec(a, b) <= 0,
        a == 0 ==> fp_mul_spec(a, b) == 0,
{
    if a >= 0 {
        assert(a * b >= 0) by (nonlinear_arith)
            requires
                a >= 0,
                b >= 0,
        ;
        assert((a * b) / 1000 >= 0) by (nonlinear_arith)
            requires
                a * b >= 0,
        ;
    } else {
        assert(a * b <= 0 && -(a * b) >= 0) by (nonlinear_arith)
            requires
                a < 0,
                b >= 0,
        ;
        assert((-(a * b)) / 1000 >= 0) by (nonlinear_arith)
            requires
                -(a * b) >= 0,
        ;
        if a * b >= 0 {
            assert((a * b) / 1000 >= 0) by (nonlinear_arith)
                requires
                    a * b >= 0,
            ;
        }
    }
    if a == 0 {
        assert(a * b == 0) by (nonlinear_arith)
            requires
                a == 0,
        ;
        assert(0int / 1000 == 0) by (nonlinear_arith);
    }
}

/// Scaling by a positive factor scales the absolute value.
pub proof fn lemma_abs_mul_pos(a: int, k: int)
    requires
        k > 0,
    ensures
        abs_of(a * k) == abs_of(a) * k,
{
    if a >= 0 {
        assert(a * k >= 0) by (nonlinear_arith)
            requires
                a >= 0,
                k > 0,
        ;
    } else {
        assert(a * k < 0) by (nonlinear_arith)
            requires
                a < 0,
                k > 0,
        ;
        assert(-(a * k) == (-a) * k) by (nonlinear_arith);
    }
}

/// `a * b / d` with truncation towards zero, the shared body of the
/// fixed-point operations.  The product is taken in 128 bits, so only the
/// final quotient must fit an `i64`.
pub fn mul_div_tz(a: i64, b: i64, d: i64) -> (r: i64)
    requires
        d > 0,
        i64::MIN <= div_tz(a * b, d as int) <= i64::MAX,
    ensures
        r == div_tz(a * b, d as int),
{
    let neg: bool = (a < 0) != (b < 0);
    let am: u128 = if a < 0 {
        (-(a as i128)) as u128
    } else {
        a as u128
    };
    let bm: u128 = if b < 0 {
        (-(b as i128)) as u128
    } else {
        b as u128
    };
    assert(am == abs_of(a as int) && bm == abs_of(b as int));
    assert(am <= 1u128 << 63 && bm <= 1u128 << 63) by {
        assert(1u128 << 63 == 0x8000_0000_0000_0000u128) by (bit_vector);
    }
    assert(am * bm == abs_of((a as int) * (b as int)) && am * bm < u128::MAX) by (nonlinear_arith)
        requires
            am == abs_of(a as int),
            bm == abs_of(b as int),
            am <= 1u128 << 63,
            bm <= 1u128 << 63,
    ;
    let q: u128 = (am * bm) / (d as u128);
    proof {
        assert(q == abs_of((a as int) * (b as int)) / (d as int));
        if neg {
            assert((a as int) * (b as int) <= 0) by (nonlinear_arith)
                requires
                    (a < 0) != (b < 0),
            ;
        } else {
            assert((a as int) * (b as int) >= 0) by (nonlinear_arith)
                requires
                    (a < 0) == (b < 0),
            ;
        }
    }
    if neg {
        assert(div_tz(a * b, d as int) == -(q as int));
        (-(q as i128)) as i64
    } else {
        assert(div_tz(a * b, d as int) == q as int);
        q as i64
    }
}

/// Fixed-point multiplication.
pub fn fp_mul(a: i64, b: i64) -> (r: i64)
    requires
        i64::MIN <= fp_mul_spec(a as int, b as int) <= i64::MAX,
    ensures
        r == fp_mul_spec(a as int, b as int),
{
    mul_div_tz(a, b, SCALE)
}

/// Fixed-point division, for a positive divisor.
pub fn fp_div(a: i64, b: i64) -> (r: i64)
    requires
        b > 0,
        i64::MIN <= fp_div_spec(a as int, b as int) <= i64::MAX,
    ensures
        r == fp_div_spec(a as int, b as int),
{
    mul_div_tz(a, SCALE, b)
}

/// Integer square root by bisection.
pub fn isqrt(n: u64) -> (r: u64)
    ensures
        is_isqrt(n as int, r as int),
        r == isqrt_spec(n as int),
{
    let mut lo: u64 = 0;
    let mut hi: u64 = 0x1_0000_0000;
    assert((hi as int) * (hi as int) > n as int) by (nonlinear_arith)
        requires
            hi == 0x1_0000_0000u64,
            n <= u64::MAX,
    ;
    while lo + 1 < hi
        invariant
            lo < hi <= 0x1_0000_0000u64,
            (lo as int) * (lo as int) <= n as int,
            (hi as int) * (hi as int) > n as int,
        decreases hi - lo,
    {
        let mid: u64 = lo + (hi - lo) / 2;
        assert((mid as int) * (mid as int) <= u128::MAX) by (nonlinear_arith)
            requires
                mid <= 0x1_0000_0000u64,
        ;
        let sq: u128 = (mid as u128) * (mid as u128);
        if sq <= n as u128 {
            lo = mid;
        } else {
            hi = mid;
        }
    }
    proof {
        assert(hi == lo + 1);
        lemma_isqrt_unique(n as int, lo as int);
    }
    lo
}

} // verus!
