//! Three-component vectors over the fixed-point scalar.
//!
//! Components are at scale `SCALE`; products of two scaled values are brought
//! back to scale by a truncating division, so `dot`, `cross`, `norm` and
//! `normalize` mirror their real-number counterparts up to less than one unit
//! of rounding per component.

use vstd::prelude::*;
use crate::fixed::div_t;
use crate::fixed::isqrt;
use crate::fixed::mul_fx;
use crate::fixed::mul_fx_s;
use crate::fixed::sqrt_s;
use crate::fixed::lemma_sqrt_s_bounds;
use crate::fixed::lemma_div_t_bound;
use crate::fixed::lemma_div_t_close;
use crate::fixed::lemma_mul_bounds;
use crate::fixed::COORD_LIMIT;
use crate::fixed::FACTOR_LIMIT;
use crate::fixed::SCALE;

verus! {

/// Largest component magnitude accepted by the norm-related operations
/// (the real value one thousand).
pub const NORM_LIMIT: i64 = 1_000_000_000_000;

#[derive(Debug, PartialEq, Eq, Structural, Copy, Clone)]
pub struct Vector3 {
    pub x: i64,
    pub y: i64,
    pub z: i64,
}

/// Every component of `v` has magnitude at most `b`.
pub open spec fn bounded(v: Vector3, b: int) -> bool {
    &&& -b <= v.x <= b
    &&& -b <= v.y <= b
    &&& -b <= v.z <= b
}

/// The exact squared norm, at double scale: no rounding happens here.
pub open spec fn norm2_s(v: Vector3) -> int {
    (v.x as int) * (v.x as int) + (v.y as int) * (v.y as int) + (v.z as int) * (v.z as int)
}

/// The exact component products of the dot product, at double scale.
pub open spec fn dot2_s(u: Vector3, v: Vector3) -> int {
    (u.x as int) * (v.x as int) + (u.y as int) * (v.y as int) + (u.z as int) * (v.z as int)
}

/// The cross product component along `x`, at double scale.
pub open spec fn cross2_x_s(u: Vector3, v: Vector3) -> int {
    (u.y as int) * (v.z as int) - (u.z as int) * (v.y as int)
}

/// The cross product component along `y`, at double scale.
pub open spec fn cross2_y_s(u: Vector3, v: Vector3) -> int {
    (u.z as int) * (v.x as int) - (u.x as int) * (v.z as int)
}

/// The cross product component along `z`, at double scale.
pub open spec fn cross2_z_s(u: Vector3, v: Vector3) -> int {
    (u.x as int) * (v.y as int) - (u.y as int) * (v.x as int)
}

/// The norm of `v` at scale: the integer square root of the exact squared
/// norm, which is itself at double scale.
pub open spec fn norm_s(v: Vector3) -> int {
    sqrt_s(norm2_s(v))
}

impl Vector3 {
    pub fn new(x: i64, y: i64, z: i64) -> (r: Self)
        ensures
            r == (Vector3 { x, y, z }),
    {
        Self { x, y, z }
    }

    /// The zero vector.
    pub fn default() -> (r: Self)
        ensures
            r == (Vector3 { x: 0i64, y: 0i64, z: 0i64 }),
    {
        Self { x: 0, y: 0, z: 0 }
    }

    /// The squared norm brought back to scale by a truncating division.
    pub fn norm_squared(&self) -> (r: i64)
        requires
            bounded(*self, NORM_LIMIT as int),
        ensures
            r == div_t(norm2_s(*self), SCALE as int),
    {
        proof {
            lemma_norm2_range(*self, NORM_LIMIT as int);
            lemma_div_t_bound(norm2_s(*self), SCALE as int, 3_000_000_000_000_000int);
            lemma_mul_bounds(self.x as int, self.x as int, NORM_LIMIT as int, NORM_LIMIT as int);
            lemma_mul_bounds(self.y as int, self.y as int, NORM_LIMIT as int, NORM_LIMIT as int);
            lemma_mul_bounds(self.z as int, self.z as int, NORM_LIMIT as int, NORM_LIMIT as int);
        }
        let n2: i128 = (self.x as i128) * (self.x as i128) + (self.y as i128) * (self.y as i128)
            + (self.z as i128) * (self.z as i128);
        (n2 / (SCALE as i128)) as i64
    }

    /// The norm at scale, by integer square root of the exact squared norm.
    pub fn norm(&self) -> (r: i64)
        requires
            bounded(*self, NORM_LIMIT as int),
        ensures
            r == norm_s(*self),
            0 <= r <= 2 * NORM_LIMIT,
    {
        proof {
            lemma_norm2_range(*self, NORM_LIMIT as int);
            lemma_sqrt_s_bounds(norm2_s(*self));
            assert(sqrt_s(norm2_s(*self)) <= 2 * NORM_LIMIT) by (nonlinear_arith)
                requires
                    sqrt_s(norm2_s(*self)) * sqrt_s(norm2_s(*self)) <= norm2_s(*self),
                    0 <= sqrt_s(norm2_s(*self)),
                    norm2_s(*self) <= 3 * (NORM_LIMIT as int) * (NORM_LIMIT as int),
                    NORM_LIMIT == 1_000_000_000_000i64;
            lemma_mul_bounds(self.x as int, self.x as int, NORM_LIMIT as int, NORM_LIMIT as int);
            lemma_mul_bounds(self.y as int, self.y as int, NORM_LIMIT as int, NORM_LIMIT as int);
            lemma_mul_bounds(self.z as int, self.z as int, NORM_LIMIT as int, NORM_LIMIT as int);
        }
        let n2: i128 = (self.x as i128) * (self.x as i128) + (self.y as i128) * (self.y as i128)
            + (self.z as i128) * (self.z as i128);
        isqrt(n2 as u128) as i64
    }

    /// Scale every component by `SCALE / norm`, rounding toward zero. The
    /// zero vector is excluded: its direction is undefined.
    pub fn normalize(&self) -> (r: Self)
        requires
            bounded(*self, NORM_LIMIT as int),
            norm2_s(*self) >= 1,
        ensures
            r.x == div_t((self.x as int) * (SCALE as int), norm_s(*self)),
            r.y == div_t((self.y as int) * (SCALE as int), norm_s(*self)),
            r.z == div_t((self.z as int) * (SCALE as int), norm_s(*self)),
    {
        let n = self.norm();
        proof {
            lemma_norm2_range(*self, NORM_LIMIT as int);
            lemma_sqrt_s_bounds(norm2_s(*self));
            assert(n >= 1) by (nonlinear_arith)
                requires
                    n == sqrt_s(norm2_s(*self)),
                    n >= 0,
                    norm2_s(*self) >= 1,
                    norm2_s(*self) < (sqrt_s(norm2_s(*self)) + 1) * (sqrt_s(norm2_s(*self)) + 1);
            lemma_component_le_norm(*self);
            lemma_scaled_component_bound(self.x as int, n as int);
            lemma_scaled_component_bound(self.y as int, n as int);
            lemma_scaled_component_bound(self.z as int, n as int);
            lemma_mul_bounds(self.x as int, SCALE as int, NORM_LIMIT as int, SCALE as int);
            lemma_mul_bounds(self.y as int, SCALE as int, NORM_LIMIT as int, SCALE as int);
            lemma_mul_bounds(self.z as int, SCALE as int, NORM_LIMIT as int, SCALE as int);
        }
        Self {
            x: ((self.x as i128) * (SCALE as i128) / (n as i128)) as i64,
            y: ((self.y as i128) * (SCALE as i128) / (n as i128)) as i64,
            z: ((self.z as i128) * (SCALE as i128) / (n as i128)) as i64,
        }
    }

    /// The dot product brought back to scale by a truncating division.
    pub fn dot(&self, other: &Self) -> (r: i64)
        requires
            bounded(*self, NORM_LIMIT as int),
            bounded(*other, NORM_LIMIT as int),
        ensures
            r == div_t(dot2_s(*self, *other), SCALE as int),
    {
        proof {
            lemma_dot2_range(*self, *other, NORM_LIMIT as int);
            lemma_div_t_bound(dot2_s(*self, *other), SCALE as int, 3_000_000_000_000_000int);
            lemma_mul_bounds(self.x as int, other.x as int, NORM_LIMIT as int, NORM_LIMIT as int);
            lemma_mul_bounds(self.y as int, other.y as int, NORM_LIMIT as int, NORM_LIMIT as int);
            lemma_mul_bounds(self.z as int, other.z as int, NORM_LIMIT as int, NORM_LIMIT as int);
        }
        let d2: i128 = (self.x as i128) * (other.x as i128) + (self.y as i128) * (other.y as i128)
            + (self.z as i128) * (other.z as i128);
        (d2 / (SCALE as i128)) as i64
    }

    /// The cross product, each component brought back to scale by a
    /// truncating division.
    pub fn cross(&self, other: &Self) -> (r: Self)
        requires
            bounded(*self, NORM_LIMIT as int),
            bounded(*other, NORM_LIMIT as int),
        ensures
            r.x == div_t(cross2_x_s(*self, *other), SCALE as int),
            r.y == div_t(cross2_y_s(*self, *other), SCALE as int),
            r.z == div_t(cross2_z_s(*self, *other), SCALE as int),
            bounded(r, 2_000_000_000_000_000int),
    {
        proof {
            lemma_cross2_range(*self, *other, NORM_LIMIT as int);
            lemma_div_t_bound(cross2_x_s(*self, *other), SCALE as int, 2_000_000_000_000_000int);
            lemma_div_t_bound(cross2_y_s(*self, *other), SCALE as int, 2_000_000_000_000_000int);
            lemma_div_t_bound(cross2_z_s(*self, *other), SCALE as int, 2_000_000_000_000_000int);
            lemma_mul_bounds(self.x as int, other.y as int, NORM_LIMIT as int, NORM_LIMIT as int);
            lemma_mul_bounds(self.x as int, other.z as int, NORM_LIMIT as int, NORM_LIMIT as int);
            lemma_mul_bounds(self.y as int, other.x as int, NORM_LIMIT as int, NORM_LIMIT as int);
            lemma_mul_bounds(self.y as int, other.z as int, NORM_LIMIT as int, NORM_LIMIT as int);
            lemma_mul_bounds(self.z as int, other.x as int, NORM_LIMIT as int, NORM_LIMIT as int);
            lemma_mul_bounds(self.z as int, other.y as int, NORM_LIMIT as int, NORM_LIMIT as int);
        }
        Self {
            x: (((self.y as i128) * (other.z as i128) - (self.z as i128) * (other.y as i128)) / (
            SCALE as i128)) as i64,
            y: (((self.z as i128) * (other.x as i128) - (self.x as i128) * (other.z as i128)) / (
            SCALE as i128)) as i64,
            z: (((self.x as i128) * (other.y as i128) - (self.y as i128) * (other.x as i128)) / (
            SCALE as i128)) as i64,
        }
    }

    /// Componentwise sum.
    pub fn add_vector(&self, other: &Self) -> (r: Self)
        requires
            bounded(*self, COORD_LIMIT as int),
            bounded(*other, COORD_LIMIT as int),
        ensures
            r.x == self.x + other.x,
            r.y == self.y + other.y,
            r.z == self.z + other.z,
    {
        Self { x: self.x + other.x, y: self.y + other.y, z: self.z + other.z }
    }

    /// Componentwise difference.
    pub fn sub_vector(&self, other: &Self) -> (r: Self)
        requires
            bounded(*self, COORD_LIMIT as int),
            bounded(*other, COORD_LIMIT as int),
        ensures
            r.x == self.x - other.x,
            r.y == self.y - other.y,
            r.z == self.z - other.z,
    {
        Self { x: self.x - other.x, y: self.y - other.y, z: self.z - other.z }
    }

    /// Add a scalar to every component.
    pub fn add_scalar(&self, rhs: i64) -> (r: Self)
        requires
            bounded(*self, COORD_LIMIT as int),
            -COORD_LIMIT <= rhs <= COORD_LIMIT,
        ensures
            r.x == self.x + rhs,
            r.y == self.y + rhs,
            r.z == self.z + rhs,
    {
        Self { x: self.x + rhs, y: self.y + rhs, z: self.z + rhs }
    }

    /// Subtract a scalar from every component.
    pub fn sub_scalar(&self, rhs: i64) -> (r: Self)
        requires
            bounded(*self, COORD_LIMIT as int),
            -COORD_LIMIT <= rhs <= COORD_LIMIT,
        ensures
            r.x == self.x - rhs,
            r.y == self.y - rhs,
            r.z == self.z - rhs,
    {
        Self { x: self.x - rhs, y: self.y - rhs, z: self.z - rhs }
    }

    /// Scale every component by a fixed-point factor.
    pub fn mul_scalar(&self, rhs: i64) -> (r: Self)
        requires
            bounded(*self, FACTOR_LIMIT as int),
            -COORD_LIMIT <= rhs <= COORD_LIMIT,
        ensures
            r.x == mul_fx_s(self.x as int, rhs as int),
            r.y == mul_fx_s(self.y as int, rhs as int),
            r.z == mul_fx_s(self.z as int, rhs as int),
    {
        Self {
            x: mul_fx(self.x, rhs),
            y: mul_fx(self.y, rhs),
            z: mul_fx(self.z, rhs),
        }
    }

    /// Componentwise negation.
    pub fn neg(&self) -> (r: Self)
        requires
            bounded(*self, COORD_LIMIT as int),
        ensures
            r.x == -self.x,
            r.y == -self.y,
            r.z == -self.z,
    {
        Self { x: -self.x, y: -self.y, z: -self.z }
    }
}

/// The exact squared norm of a vector bounded by `b` lies in `[0, 3 b^2]`.
pub proof fn lemma_norm2_range(v: Vector3, b: int)
    requires
        bounded(v, b),
    ensures
        0 <= norm2_s(v) <= 3 * b * b,
{
    assert(0 <= norm2_s(v) <= 3 * b * b) by (nonlinear_arith)
        requires
            bounded(v, b),
            norm2_s(v) == (v.x as int) * (v.x as int) + (v.y as int) * (v.y as int) + (
            v.z as int) * (v.z as int);
}

/// The exact dot product of vectors bounded by `b` has magnitude at most `3 b^2`.
pub proof fn lemma_dot2_range(u: Vector3, v: Vector3, b: int)
    requires
        bounded(u, b),
        bounded(v, b),
        b >= 0,
    ensures
        -3 * b * b <= dot2_s(u, v) <= 3 * b * b,
{
    assert(-3 * b * b <= dot2_s(u, v) <= 3 * b * b) by (nonlinear_arith)
        requires
            bounded(u, b),
            bounded(v, b),
            b >= 0,
            dot2_s(u, v) == (u.x as int) * (v.x as int) + (u.y as int) * (v.y as int) + (
            u.z as int) * (v.z as int);
}

/// Each exact cross component of vectors bounded by `b` has magnitude at most
/// `2 b^2`.
pub proof fn lemma_cross2_range(u: Vector3, v: Vector3, b: int)
    requires
        bounded(u, b),
        bounded(v, b),
        b >= 0,
    ensures
        -2 * b * b <= cross2_x_s(u, v) <= 2 * b * b,
        -2 * b * b <= cross2_y_s(u, v) <= 2 * b * b,
        -2 * b * b <= cross2_z_s(u, v) <= 2 * b * b,
{
    assert(-2 * b * b <= cross2_x_s(u, v) <= 2 * b * b && -2 * b * b <= cross2_y_s(u, v) <= 2 * b
        * b && -2 * b * b <= cross2_z_s(u, v) <= 2 * b * b) by (nonlinear_arith)
        requires
            bounded(u, b),
            bounded(v, b),
            b >= 0,
            cross2_x_s(u, v) == (u.y as int) * (v.z as int) - (u.z as int) * (v.y as int),
            cross2_y_s(u, v) == (u.z as int) * (v.x as int) - (u.x as int) * (v.z as int),
            cross2_z_s(u, v) == (u.x as int) * (v.y as int) - (u.y as int) * (v.x as int);
}

/// No component outgrows the norm: `x^2 <= norm2` forces `|x| <= sqrt(norm2)`.
pub proof fn lemma_component_le_norm(v: Vector3)
    ensures
        -norm_s(v) <= v.x <= norm_s(v),
        -norm_s(v) <= v.y <= norm_s(v),
        -norm_s(v) <= v.z <= norm_s(v),
{
    lemma_norm2_sign(v);
    lemma_sqrt_s_bounds(norm2_s(v));
    let n = norm_s(v);
    assert(-n <= v.x <= n && -n <= v.y <= n && -n <= v.z <= n) by (nonlinear_arith)
        requires
            n >= 0,
            norm2_s(v) < (n + 1) * (n + 1),
            norm2_s(v) == (v.x as int) * (v.x as int) + (v.y as int) * (v.y as int) + (
            v.z as int) * (v.z as int);
}

/// The exact squared norm is never negative.
pub proof fn lemma_norm2_sign(v: Vector3)
    ensures
        norm2_s(v) >= 0,
{
    assert(norm2_s(v) >= 0) by (nonlinear_arith)
        requires
            norm2_s(v) == (v.x as int) * (v.x as int) + (v.y as int) * (v.y as int) + (
            v.z as int) * (v.z as int);
}

/// A component no larger than the norm, rescaled by `SCALE / norm`, stays
/// within one scale unit.
proof fn lemma_scaled_component_bound(x: int, n: int)
    requires
        n >= 1,
        -n <= x <= n,
    ensures
        -SCALE <= div_t(x * (SCALE as int), n) <= SCALE,
{
    assert(-(SCALE as int) * n <= x * (SCALE as int) <= (SCALE as int) * n) by (nonlinear_arith)
        requires
            n >= 1,
            -n <= x <= n;
    lemma_div_t_bound(x * (SCALE as int), n, SCALE as int);
}

} // verus!

// The lemmas below carry the rounding-error analysis that the orientation
// basis rests on: normalizing a vector whose squared norm is at least
// `GUARD_NORM2` yields components at most one (in scale units), a squared
// norm within `UNIT_NORM2_TOL` of one, and dot products against near-unit
// vectors moved by at most a bounded amount.

verus! {

/// Smallest exact squared norm a vector may have and still be normalized by
/// the orientation code (the real value `1/2000` squared).
pub const GUARD_NORM2: i64 = 250_000_000_000;

/// How far the exact squared norm of a normalized vector may sit from one,
/// at double scale.
pub const UNIT_NORM2_TOL: i64 = 4_100_000_000_000;

/// How large the exact dot product of two stored basis vectors may be, at
/// double scale (the real value `1/100000`).
pub const DOT2_TOL: i64 = 10_000_000_000_000;

/// A near-unit vector: components within one, exact squared norm within
/// `UNIT_NORM2_TOL` of one, everything at scale.
pub open spec fn unitish(v: Vector3) -> bool {
    &&& bounded(v, SCALE as int)
    &&& (SCALE as int) * (SCALE as int) - UNIT_NORM2_TOL <= norm2_s(v) <= (SCALE as int) * (
    SCALE as int) + UNIT_NORM2_TOL
}

/// Two vectors whose exact dot product is within `DOT2_TOL` of zero.
pub open spec fn ortho2(u: Vector3, v: Vector3) -> bool {
    -DOT2_TOL <= dot2_s(u, v) <= DOT2_TOL
}

/// `r` is exactly what `v.normalize()` returns.
pub open spec fn is_normalized_of(r: Vector3, v: Vector3) -> bool {
    &&& r.x == div_t((v.x as int) * (SCALE as int), norm_s(v))
    &&& r.y == div_t((v.y as int) * (SCALE as int), norm_s(v))
    &&& r.z == div_t((v.z as int) * (SCALE as int), norm_s(v))
}

/// A normalized vector has components within one, whatever the length of
/// the original (a positive squared norm is enough).
pub proof fn lemma_normalized_bounded(v: Vector3, f: Vector3)
    requires
        bounded(v, NORM_LIMIT as int),
        norm2_s(v) >= 1,
        is_normalized_of(f, v),
    ensures
        bounded(f, SCALE as int),
{
    let n = norm_s(v);
    lemma_sqrt_s_bounds(norm2_s(v));
    assert(n >= 1) by (nonlinear_arith)
        requires
            n == sqrt_s(norm2_s(v)),
            n >= 0,
            norm2_s(v) >= 1,
            norm2_s(v) < (sqrt_s(norm2_s(v)) + 1) * (sqrt_s(norm2_s(v)) + 1);
    lemma_component_le_norm(v);
    lemma_scaled_component_bound(v.x as int, n);
    lemma_scaled_component_bound(v.y as int, n);
    lemma_scaled_component_bound(v.z as int, n);
}

/// The norm of a vector above the guard is between `500_000` and
/// `2 * NORM_LIMIT`.
pub proof fn lemma_norm_range(v: Vector3)
    requires
        bounded(v, NORM_LIMIT as int),
        norm2_s(v) >= GUARD_NORM2,
    ensures
        500_000 <= norm_s(v) <= 2 * NORM_LIMIT,
{
    lemma_norm2_range(v, NORM_LIMIT as int);
    lemma_sqrt_s_bounds(norm2_s(v));
    let n = norm_s(v);
    assert(500_000 <= n <= 2 * NORM_LIMIT) by (nonlinear_arith)
        requires
            n >= 0,
            n * n <= norm2_s(v),
            norm2_s(v) < (n + 1) * (n + 1),
            250_000_000_000 <= norm2_s(v) <= 3_000_000_000_000_000_000_000_000int;
}

/// One component of a normalization: `fi = trunc(vi * SCALE / n)` stays
/// within one, and its square, against `n * n`, sits within a bounded band
/// around `vi^2 * SCALE^2`.
proof fn lemma_unit_comp(vi: int, n: int, fi: int)
    requires
        n >= 1,
        -n <= vi <= n,
        fi == div_t(vi * (SCALE as int), n),
    ensures
        -SCALE <= fi <= SCALE,
        (vi * vi) * ((SCALE as int) * (SCALE as int)) - 2 * (SCALE as int) * (n * n) <= (fi * fi)
            * (n * n) <= (vi * vi) * ((SCALE as int) * (SCALE as int)) + n * n,
{
    lemma_div_t_close(vi * (SCALE as int), n);
    assert(-(SCALE as int) * n <= vi * (SCALE as int) <= (SCALE as int) * n) by (nonlinear_arith)
        requires
            n >= 1,
            -n <= vi <= n;
    lemma_div_t_bound(vi * (SCALE as int), n, SCALE as int);
    let q = fi * n;
    assert((vi * vi) * ((SCALE as int) * (SCALE as int)) - 2 * (SCALE as int) * (n * n) <= q * q
        <= (vi * vi) * ((SCALE as int) * (SCALE as int)) + n * n) by (nonlinear_arith)
        requires
            n >= 1,
            -n <= vi <= n,
            q == (div_t(vi * (SCALE as int), n)) * n,
            vi * (SCALE as int) >= 0 ==> vi * (SCALE as int) - n < q <= vi * (SCALE as int),
            vi * (SCALE as int) <= 0 ==> vi * (SCALE as int) <= q < vi * (SCALE as int) + n,
            SCALE == 1_000_000_000i64;
    assert((fi * fi) * (n * n) == q * q) by (nonlinear_arith)
        requires
            q == fi * n;
}

/// Normalizing a vector above the guard yields a near-unit vector.
pub proof fn lemma_normalize_norm2(v: Vector3, f: Vector3)
    requires
        bounded(v, NORM_LIMIT as int),
        norm2_s(v) >= GUARD_NORM2,
        is_normalized_of(f, v),
    ensures
        unitish(f),
{
    let n = norm_s(v);
    let sc = SCALE as int;
    lemma_norm_range(v);
    lemma_sqrt_s_bounds(norm2_s(v));
    lemma_component_le_norm(v);
    lemma_unit_comp(v.x as int, n, f.x as int);
    lemma_unit_comp(v.y as int, n, f.y as int);
    lemma_unit_comp(v.z as int, n, f.z as int);
    let fx = f.x as int;
    let fy = f.y as int;
    let fz = f.z as int;
    let vx = v.x as int;
    let vy = v.y as int;
    let vz = v.z as int;
    // Distribute the sums of squares over the common factors.
    assert(norm2_s(f) * (n * n) == (fx * fx) * (n * n) + (fy * fy) * (n * n) + (fz * fz) * (n
        * n)) by (nonlinear_arith)
        requires
            norm2_s(f) == fx * fx + fy * fy + fz * fz;
    assert(norm2_s(v) * (sc * sc) == (vx * vx) * (sc * sc) + (vy * vy) * (sc * sc) + (vz * vz) * (
    sc * sc)) by (nonlinear_arith)
        requires
            norm2_s(v) == vx * vx + vy * vy + vz * vz;
    // The three component bands add up linearly.
    assert(norm2_s(v) * (sc * sc) - 6 * (sc * (n * n)) <= norm2_s(f) * (n * n) <= norm2_s(v) * (sc
        * sc) + 3 * (n * n)) by {
        assert(2 * (SCALE as int) * (n * n) == 2 * (sc * (n * n))) by (nonlinear_arith)
            requires
                sc == SCALE as int;
    }
    // Divide out n * n.
    assert(sc * sc - UNIT_NORM2_TOL <= norm2_s(f) <= sc * sc + UNIT_NORM2_TOL) by (nonlinear_arith)
        requires
            500_000 <= n <= 2_000_000_000_000int,
            n * n <= norm2_s(v),
            norm2_s(v) < (n + 1) * (n + 1),
            norm2_s(v) * (sc * sc) - 6 * (sc * (n * n)) <= norm2_s(f) * (n * n) <= norm2_s(v) * (
            sc * sc) + 3 * (n * n),
            sc == 1_000_000_000int,
            UNIT_NORM2_TOL == 4_100_000_000_000i64;
}

/// The exact cross product is exactly orthogonal to both factors; the
/// rounded one, against factors within one, keeps its dot products within
/// three scale units.
pub proof fn lemma_cross_ortho(u: Vector3, v: Vector3, c: Vector3)
    requires
        bounded(u, SCALE as int),
        bounded(v, SCALE as int),
        c.x == div_t(cross2_x_s(u, v), SCALE as int),
        c.y == div_t(cross2_y_s(u, v), SCALE as int),
        c.z == div_t(cross2_z_s(u, v), SCALE as int),
    ensures
        bounded(c, 2 * SCALE as int),
        -3 * SCALE <= dot2_s(c, u) <= 3 * SCALE,
        -3 * SCALE <= dot2_s(c, v) <= 3 * SCALE,
{
    let sc = SCALE as int;
    lemma_cross2_range(u, v, sc);
    lemma_div_t_bound(cross2_x_s(u, v), sc, 2 * sc);
    lemma_div_t_bound(cross2_y_s(u, v), sc, 2 * sc);
    lemma_div_t_bound(cross2_z_s(u, v), sc, 2 * sc);
    lemma_div_t_close(cross2_x_s(u, v), sc);
    lemma_div_t_close(cross2_y_s(u, v), sc);
    lemma_div_t_close(cross2_z_s(u, v), sc);
    let ex = cross2_x_s(u, v);
    let ey = cross2_y_s(u, v);
    let ez = cross2_z_s(u, v);
    // The exact cross product is orthogonal to both factors.
    assert(ex * (u.x as int) + ey * (u.y as int) + ez * (u.z as int) == 0) by (nonlinear_arith)
        requires
            ex == (u.y as int) * (v.z as int) - (u.z as int) * (v.y as int),
            ey == (u.z as int) * (v.x as int) - (u.x as int) * (v.z as int),
            ez == (u.x as int) * (v.y as int) - (u.y as int) * (v.x as int);
    assert(ex * (v.x as int) + ey * (v.y as int) + ez * (v.z as int) == 0) by (nonlinear_arith)
        requires
            ex == (u.y as int) * (v.z as int) - (u.z as int) * (v.y as int),
            ey == (u.z as int) * (v.x as int) - (u.x as int) * (v.z as int),
            ez == (u.x as int) * (v.y as int) - (u.y as int) * (v.x as int);
    lemma_rounded_dot(ex, ey, ez, c.x as int, c.y as int, c.z as int, u.x as int, u.y as int,
        u.z as int);
    lemma_rounded_dot(ex, ey, ez, c.x as int, c.y as int, c.z as int, v.x as int, v.y as int,
        v.z as int);
    assert(dot2_s(c, u) == (c.x as int) * (u.x as int) + (c.y as int) * (u.y as int) + (
    c.z as int) * (u.z as int));
    assert(dot2_s(c, v) == (c.x as int) * (v.x as int) + (c.y as int) * (v.y as int) + (
    c.z as int) * (v.z as int));
}

/// Rounding each `ei` down to `ci = trunc(ei / SCALE)` moves a dot product
/// that was exactly zero by at most three scale units.
proof fn lemma_rounded_dot(ex: int, ey: int, ez: int, cx: int, cy: int, cz: int, wx: int, wy: int, wz: int)
    requires
        cx == div_t(ex, SCALE as int),
        cy == div_t(ey, SCALE as int),
        cz == div_t(ez, SCALE as int),
        ex * wx + ey * wy + ez * wz == 0,
        -(SCALE as int) <= wx <= SCALE as int,
        -(SCALE as int) <= wy <= SCALE as int,
        -(SCALE as int) <= wz <= SCALE as int,
    ensures
        -3 * SCALE <= cx * wx + cy * wy + cz * wz <= 3 * SCALE,
{
    let sc = SCALE as int;
    lemma_div_t_close(ex, sc);
    lemma_div_t_close(ey, sc);
    lemma_div_t_close(ez, sc);
    // The rounding losses of the three components.
    let px = ex - cx * sc;
    let py = ey - cy * sc;
    let pz = ez - cz * sc;
    assert(-sc < px < sc && -sc < py < sc && -sc < pz < sc);
    // Distribute componentwise.
    assert((cx * wx) * sc == ex * wx - px * wx) by (nonlinear_arith)
        requires
            px == ex - cx * sc;
    assert((cy * wy) * sc == ey * wy - py * wy) by (nonlinear_arith)
        requires
            py == ey - cy * sc;
    assert((cz * wz) * sc == ez * wz - pz * wz) by (nonlinear_arith)
        requires
            pz == ez - cz * sc;
    assert((cx * wx + cy * wy + cz * wz) * sc == (cx * wx) * sc + (cy * wy) * sc + (cz * wz)
        * sc) by (nonlinear_arith);
    lemma_mul_bounds(px, wx, sc, sc);
    lemma_mul_bounds(py, wy, sc, sc);
    lemma_mul_bounds(pz, wz, sc, sc);
    assert((cx * wx + cy * wy + cz * wz) * sc == -(px * wx + py * wy + pz * wz));
    assert(-3 * sc <= cx * wx + cy * wy + cz * wz <= 3 * sc) by (nonlinear_arith)
        requires
            -3 * (sc * sc) <= (cx * wx + cy * wy + cz * wz) * sc <= 3 * (sc * sc),
            sc == 1_000_000_000int;
}

/// Normalizing one side of a nearly orthogonal pair keeps it nearly
/// orthogonal: the amplification by `SCALE / norm` is capped by the guard.
pub proof fn lemma_normalize_dot(c: Vector3, w: Vector3, chat: Vector3)
    requires
        bounded(c, NORM_LIMIT as int),
        bounded(w, SCALE as int),
        norm2_s(c) >= GUARD_NORM2,
        is_normalized_of(chat, c),
        -3 * SCALE <= dot2_s(c, w) <= 3 * SCALE,
    ensures
        ortho2(chat, w),
{
    let sc = SCALE as int;
    let n = norm_s(c);
    lemma_norm_range(c);
    lemma_component_le_norm(c);
    lemma_div_t_close((c.x as int) * sc, n);
    lemma_div_t_close((c.y as int) * sc, n);
    lemma_div_t_close((c.z as int) * sc, n);
    // The rounding losses of the three rescaled components.
    let dx = (c.x as int) * sc - (chat.x as int) * n;
    let dy = (c.y as int) * sc - (chat.y as int) * n;
    let dz = (c.z as int) * sc - (chat.z as int) * n;
    assert(-n < dx < n && -n < dy < n && -n < dz < n);
    // Distribute componentwise: the rescaled product is the original one
    // scaled up, less the loss term.
    assert(((chat.x as int) * (w.x as int)) * n == ((c.x as int) * (w.x as int)) * sc - dx * (
    w.x as int)) by (nonlinear_arith)
        requires
            dx == (c.x as int) * sc - (chat.x as int) * n;
    assert(((chat.y as int) * (w.y as int)) * n == ((c.y as int) * (w.y as int)) * sc - dy * (
    w.y as int)) by (nonlinear_arith)
        requires
            dy == (c.y as int) * sc - (chat.y as int) * n;
    assert(((chat.z as int) * (w.z as int)) * n == ((c.z as int) * (w.z as int)) * sc - dz * (
    w.z as int)) by (nonlinear_arith)
        requires
            dz == (c.z as int) * sc - (chat.z as int) * n;
    assert(dot2_s(chat, w) * n == ((chat.x as int) * (w.x as int)) * n + ((chat.y as int) * (
    w.y as int)) * n + ((chat.z as int) * (w.z as int)) * n) by (nonlinear_arith)
        requires
            dot2_s(chat, w) == (chat.x as int) * (w.x as int) + (chat.y as int) * (w.y as int) + (
            chat.z as int) * (w.z as int);
    assert(dot2_s(c, w) * sc == ((c.x as int) * (w.x as int)) * sc + ((c.y as int) * (
    w.y as int)) * sc + ((c.z as int) * (w.z as int)) * sc) by (nonlinear_arith)
        requires
            dot2_s(c, w) == (c.x as int) * (w.x as int) + (c.y as int) * (w.y as int) + (
            c.z as int) * (w.z as int);
    assert(dot2_s(chat, w) * n == dot2_s(c, w) * sc - (dx * (w.x as int) + dy * (w.y as int) + dz
        * (w.z as int)));
    lemma_mul_bounds(dx, w.x as int, n, sc);
    lemma_mul_bounds(dy, w.y as int, n, sc);
    lemma_mul_bounds(dz, w.z as int, n, sc);
    assert(-(3 * sc) * sc <= dot2_s(c, w) * sc <= (3 * sc) * sc) by (nonlinear_arith)
        requires
            -3 * sc <= dot2_s(c, w) <= 3 * sc,
            sc == 1_000_000_000int;
    assert(-(3 * sc) * sc - 3 * (n * sc) <= dot2_s(chat, w) * n <= (3 * sc) * sc + 3 * (n * sc));
    assert(-DOT2_TOL <= dot2_s(chat, w) <= DOT2_TOL) by (nonlinear_arith)
        requires
            500_000 <= n <= 2_000_000_000_000int,
            -(3 * sc) * sc - 3 * (n * sc) <= dot2_s(chat, w) * n <= (3 * sc) * sc + 3 * (n * sc),
            sc == 1_000_000_000int,
            DOT2_TOL == 10_000_000_000_000i64;
}

} // verus!
