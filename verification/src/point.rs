//! Two-dimensional vectors.
//!
//! A `Point` is a pair of fixed-point coordinates (thousandths of a pixel,
//! see [`crate::fixed`]).  It supports componentwise arithmetic, length and
//! normalization (the zero vector normalizes to itself), absolute value,
//! sign extraction, and an approximate-equality predicate with a
//! configurable margin.

use vstd::prelude::*;
use crate::fixed::{
    SCALE, abs_of, sign_of, div_tz, fp_mul_spec, is_isqrt, isqrt_spec, len_sq_in_range,
    lemma_isqrt, lemma_div_tz_bound, lemma_abs_mul_pos, fp_mul, mul_div_tz, isqrt,
};

verus! {

#[derive(Clone, Copy, Debug, PartialEq, Eq, Structural)]
pub struct Point {
    pub x: i64,
    pub y: i64,
}

/// Squared length of a vector, as a mathematical integer.
pub open spec fn len_sq_of(p: Point) -> int {
    p.x * p.x + p.y * p.y
}

/// Length of a vector: the integer square root of the squared length.
pub open spec fn len_of(p: Point) -> int {
    isqrt_spec(len_sq_of(p))
}

/// The x component of the normalized vector: scaled to `SCALE` and divided
/// by the length, or zero for the zero vector.
pub open spec fn norm_x_of(p: Point) -> int {
    if len_of(p) == 0 {
        0
    } else {
        div_tz(p.x * SCALE, len_of(p))
    }
}

/// The y component of the normalized vector.
pub open spec fn norm_y_of(p: Point) -> int {
    if len_of(p) == 0 {
        0
    } else {
        div_tz(p.y * SCALE, len_of(p))
    }
}

impl Point {
    pub fn new(x: i64, y: i64) -> (r: Point)
        ensures
            r.x == x,
            r.y == y,
    {
        Point { x, y }
    }

    /// The origin, `(0, 0)`.
    pub fn zero() -> (r: Point)
        ensures
            r.x == 0,
            r.y == 0,
    {
        Point { x: 0, y: 0 }
    }

    /// Componentwise sum.
    pub fn add(self, rhs: Point) -> (r: Point)
        requires
            i64::MIN <= self.x + rhs.x <= i64::MAX,
            i64::MIN <= self.y + rhs.y <= i64::MAX,
        ensures
            r.x == self.x + rhs.x,
            r.y == self.y + rhs.y,
    {
        Point { x: self.x + rhs.x, y: self.y + rhs.y }
    }

    /// Componentwise difference.
    pub fn sub(self, rhs: Point) -> (r: Point)
        requires
            i64::MIN <= self.x - rhs.x <= i64::MAX,
            i64::MIN <= self.y - rhs.y <= i64::MAX,
        ensures
            r.x == self.x - rhs.x,
            r.y == self.y - rhs.y,
    {
        Point { x: self.x - rhs.x, y: self.y - rhs.y }
    }

    /// Componentwise product with another vector (plain, not rescaled; the
    /// intended factors are signs and other dimensionless values).
    pub fn mul_components(self, rhs: Point) -> (r: Point)
        requires
            i64::MIN <= self.x * rhs.x <= i64::MAX,
            i64::MIN <= self.y * rhs.y <= i64::MAX,
        ensures
            r.x == self.x * rhs.x,
            r.y == self.y * rhs.y,
    {
        Point { x: self.x * rhs.x, y: self.y * rhs.y }
    }

    /// Both components multiplied by the fixed-point scalar `s`.
    pub fn mul_fp(self, s: i64) -> (r: Point)
        requires
            i64::MIN <= fp_mul_spec(self.x as int, s as int) <= i64::MAX,
            i64::MIN <= fp_mul_spec(self.y as int, s as int) <= i64::MAX,
        ensures
            r.x == fp_mul_spec(self.x as int, s as int),
            r.y == fp_mul_spec(self.y as int, s as int),
    {
        Point { x: fp_mul(self.x, s), y: fp_mul(self.y, s) }
    }

    /// Length of the vector.
    pub fn length(&self) -> (r: i64)
        requires
            len_sq_in_range(self.x as int, self.y as int),
        ensures
            r == len_of(*self),
            is_isqrt(len_sq_of(*self), r as int),
            0 <= r <= 4_300_000_000,
    {
        let ax: u64 = if self.x < 0 {
            (-(self.x as i128)) as u64
        } else {
            self.x as u64
        };
        let ay: u64 = if self.y < 0 {
            (-(self.y as i128)) as u64
        } else {
            self.y as u64
        };
        assert(ax == abs_of(self.x as int) && ay == abs_of(self.y as int));
        assert((ax as int) * (ax as int) == (self.x as int) * (self.x as int)
            && (ay as int) * (ay as int) == (self.y as int) * (self.y as int)
            && (ax as int) * (ax as int) <= 9_000_000_000_000_000_000
            && (ay as int) * (ay as int) <= 9_000_000_000_000_000_000) by (nonlinear_arith)
            requires
                ax as int == self.x as int || ax as int == -(self.x as int),
                ay as int == self.y as int || ay as int == -(self.y as int),
                ax <= 3_000_000_000,
                ay <= 3_000_000_000,
        ;
        let sq: u64 = ax * ax + ay * ay;
        let r: u64 = isqrt(sq);
        proof {
            assert(4_300_000_000int * 4_300_000_000int > sq as int) by (nonlinear_arith)
                requires
                    sq <= 18_000_000_000_000_000_000u64,
            ;
            assert((r as int) * (r as int) <= sq as int);
            assert(r < 4_300_000_000u64) by (nonlinear_arith)
                requires
                    (r as int) * (r as int) <= sq as int,
                    4_300_000_000int * 4_300_000_000int > sq as int,
                    r >= 0,
            ;
        }
        r as i64
    }

    /// The vector scaled to unit length (in fixed-point units); the zero
    /// vector stays the zero vector.
    pub fn normalized(&self) -> (r: Point)
        requires
            len_sq_in_range(self.x as int, self.y as int),
        ensures
            r.x == norm_x_of(*self),
            r.y == norm_y_of(*self),
            abs_of(r.x as int) <= SCALE,
            abs_of(r.y as int) <= SCALE,
    {
        let len = self.length();
        if len == 0 {
            Point::zero()
        } else {
            proof {
                lemma_component_le_len(*self, len as int);
                lemma_abs_mul_pos(self.x as int, SCALE as int);
                lemma_abs_mul_pos(self.y as int, SCALE as int);
                lemma_div_tz_bound(self.x * SCALE, len as int, SCALE as int);
                lemma_div_tz_bound(self.y * SCALE, len as int, SCALE as int);
            }
            Point::new(mul_div_tz(self.x, SCALE, len), mul_div_tz(self.y, SCALE, len))
        }
    }

    /// Componentwise absolute value.
    pub fn abs(&self) -> (r: Point)
        requires
            self.x > i64::MIN,
            self.y > i64::MIN,
        ensures
            r.x == abs_of(self.x as int),
            r.y == abs_of(self.y as int),
    {
        Point {
            x: if self.x < 0 {
                -self.x
            } else {
                self.x
            },
            y: if self.y < 0 {
                -self.y
            } else {
                self.y
            },
        }
    }

    /// Componentwise sign: -1, 0 or 1 per axis.
    pub fn signum(&self) -> (r: Point)
        ensures
            r.x == sign_of(self.x as int),
            r.y == sign_of(self.y as int),
    {
        Point {
            x: if self.x < 0 {
                -1
            } else if self.x == 0 {
                0
            } else {
                1
            },
            y: if self.y < 0 {
                -1
            } else if self.y == 0 {
                0
            } else {
                1
            },
        }
    }

    /// Approximate equality with the default margin of one coordinate unit,
    /// which for integer coordinates is exact equality.
    pub fn almost_equal(&self, other: &Point) -> (r: bool)
        ensures
            r <==> (self.x == other.x && self.y == other.y),
    {
        self.almost_equal_with_margin(other, 1)
    }

    /// Both components differ by strictly less than `margin`.
    pub fn almost_equal_with_margin(&self, other: &Point, margin: i64) -> (r: bool)
        ensures
            r <==> (abs_of(self.x - other.x) < margin && abs_of(self.y - other.y) < margin),
    {
        let dx: i128 = self.x as i128 - other.x as i128;
        let dy: i128 = self.y as i128 - other.y as i128;
        let adx: i128 = if dx < 0 {
            -dx
        } else {
            dx
        };
        let ady: i128 = if dy < 0 {
            -dy
        } else {
            dy
        };
        adx < margin as i128 && ady < margin as i128
    }
}

/// The normalized vector's components never exceed the scale (one unit
/// of length), and the length itself is never negative.
pub proof fn lemma_norm_bounds(p: Point)
    requires
        len_sq_in_range(p.x as int, p.y as int),
    ensures
        abs_of(norm_x_of(p)) <= SCALE,
        abs_of(norm_y_of(p)) <= SCALE,
        len_of(p) >= 0,
{
    assert((p.x as int) * (p.x as int) >= 0 && (p.y as int) * (p.y as int) >= 0)
        by (nonlinear_arith);
    lemma_isqrt(len_sq_of(p));
    let len = len_of(p);
    if len != 0 {
        lemma_component_le_len(p, len);
        lemma_abs_mul_pos(p.x as int, SCALE as int);
        lemma_abs_mul_pos(p.y as int, SCALE as int);
        lemma_div_tz_bound(p.x * SCALE, len, SCALE as int);
        lemma_div_tz_bound(p.y * SCALE, len, SCALE as int);
    }
}

/// Each component of a vector is bounded by the vector's length.
pub proof fn lemma_component_le_len(p: Point, len: int)
    requires
        is_isqrt(len_sq_of(p), len),
    ensures
        abs_of(p.x as int) <= len,
        abs_of(p.y as int) <= len,
{
    let ax = abs_of(p.x as int);
    let ay = abs_of(p.y as int);
    assert(ax <= len && ay <= len) by (nonlinear_arith)
        requires
            len >= 0,
            ax >= 0,
            ay >= 0,
            ax == p.x as int || ax == -(p.x as int),
            ay == p.y as int || ay == -(p.y as int),
            len * len <= (p.x as int) * (p.x as int) + (p.y as int) * (p.y as int) < (len + 1) * (
            len + 1),
    ;
}

} // verus!
