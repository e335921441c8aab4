//! Fixed-point trigonometry.
//!
//! `sin_fx` reduces its argument to one turn, folds it onto the first
//! quarter, and evaluates a truncated Taylor polynomial there; `cos_fx` is
//! the sine a quarter turn ahead. `atan_fx` uses a rational approximation on
//! `[0, 1]` and the reciprocal identity above it. Every function returns
//! exactly what its spec-level mirror computes, and the results are clamped
//! into `[-SCALE, SCALE]` (for the sine and cosine) or `[0, HALF_PI_FX]`
//! (for the arctangent).

use vstd::prelude::*;
use crate::fixed::clamp_s;
use crate::fixed::clamp_i64;
use crate::fixed::div_t;
use crate::fixed::div_fx_s;
use crate::fixed::lemma_div_t_bound;
use crate::fixed::lemma_div_t_close;
use crate::fixed::lemma_mul_bounds;
use crate::fixed::lemma_mul_nonneg;
use crate::fixed::lemma_div_t_nonneg;
use crate::fixed::COORD_LIMIT;
use crate::fixed::SCALE;

verus! {

/// One half turn in fixed-point radians.
pub const PI_FX: i64 = 3_141_592_654;

/// One full turn in fixed-point radians.
pub const TWO_PI_FX: i64 = 6_283_185_307;

/// One quarter turn in fixed-point radians.
pub const HALF_PI_FX: i64 = 1_570_796_327;

/// Largest angle magnitude the trigonometric functions accept.
pub const ANGLE_LIMIT: i64 = 1_000_000_000_000_000;

/// The quarter-wave sine polynomial on `[0, HALF_PI_FX]`: the Taylor sum
/// `t - t^3/6 + t^5/120 - t^7/5040` with every intermediate product brought
/// back to scale by a truncating division, clamped into one.
#[verifier::opaque]
pub open spec fn sinq_s(t: int) -> int {
    let t2 = div_t(t * t, SCALE as int);
    let t3 = div_t(t2 * t, SCALE as int);
    let t5 = div_t(t3 * t2, SCALE as int);
    let t7 = div_t(t5 * t2, SCALE as int);
    clamp_s(t - div_t(t3, 6) + div_t(t5, 120) - div_t(t7, 5040), -(SCALE as int), SCALE as int)
}

/// The fixed-point sine: the argument reduced to `[0, TWO_PI_FX)` and folded
/// onto the first quarter wave.
#[verifier::opaque]
pub open spec fn sin_s(x: int) -> int {
    let m = x % (TWO_PI_FX as int);
    if m <= HALF_PI_FX {
        sinq_s(m)
    } else if m <= PI_FX {
        sinq_s(PI_FX - m)
    } else if m <= PI_FX + HALF_PI_FX {
        -sinq_s(m - PI_FX)
    } else {
        -sinq_s(TWO_PI_FX - m)
    }
}

/// The fixed-point cosine: the sine a quarter turn ahead.
#[verifier::opaque]
pub open spec fn cos_s(x: int) -> int {
    sin_s(x + HALF_PI_FX)
}

/// The arctangent approximation `u / (1 + 0.28 u^2)` on `[0, SCALE]`, in
/// fixed point with truncating divisions.
#[verifier::opaque]
pub open spec fn atanq_s(u: int) -> int {
    div_t(u * (SCALE as int), (SCALE as int) + div_t(div_t(u * u, SCALE as int) * 280_000_000, SCALE as int))
}

/// The fixed-point arctangent of a nonnegative ratio: the rational
/// approximation below one, and a quarter turn minus the reciprocal's
/// arctangent above it.
#[verifier::opaque]
pub open spec fn atan_s(z: int) -> int {
    if z <= SCALE {
        atanq_s(z)
    } else {
        (HALF_PI_FX as int) - atanq_s(div_fx_s(SCALE as int, z))
    }
}

/// Quarter-wave sine polynomial.
fn sinq_fx(t: i64) -> (r: i64)
    requires
        0 <= t <= HALF_PI_FX,
    ensures
        r == sinq_s(t as int),
        -SCALE <= r <= SCALE,
{
    proof {
        reveal(sinq_s);
        lemma_mul_bounds(t as int, t as int, HALF_PI_FX as int, HALF_PI_FX as int);
        lemma_div_t_bound(t as int * t as int, SCALE as int, 3_000_000_000int);
    }
    let t2: i64 = ((t as i128) * (t as i128) / (SCALE as i128)) as i64;
    proof {
        lemma_mul_bounds(t2 as int, t as int, 3_000_000_000int, HALF_PI_FX as int);
        lemma_div_t_bound(t2 as int * t as int, SCALE as int, 5_000_000_000int);
    }
    let t3: i64 = ((t2 as i128) * (t as i128) / (SCALE as i128)) as i64;
    proof {
        lemma_mul_bounds(t3 as int, t2 as int, 5_000_000_000int, 3_000_000_000int);
        lemma_div_t_bound(t3 as int * t2 as int, SCALE as int, 15_000_000_000int);
    }
    let t5: i64 = ((t3 as i128) * (t2 as i128) / (SCALE as i128)) as i64;
    proof {
        lemma_mul_bounds(t5 as int, t2 as int, 15_000_000_000int, 3_000_000_000int);
        lemma_div_t_bound(t5 as int * t2 as int, SCALE as int, 45_000_000_000int);
    }
    let t7: i64 = ((t5 as i128) * (t2 as i128) / (SCALE as i128)) as i64;
    proof {
        lemma_div_t_bound(t3 as int, 6, 834_000_000int);
        lemma_div_t_bound(t5 as int, 120, 125_000_000int);
        lemma_div_t_bound(t7 as int, 5040, 9_000_000int);
    }
    let p: i64 = t - t3 / 6 + t5 / 120 - t7 / 5040;
    clamp_i64(p, -SCALE, SCALE)
}

/// The fixed-point sine of an angle in fixed-point radians.
pub fn sin_fx(x: i64) -> (r: i64)
    requires
        -ANGLE_LIMIT <= x <= ANGLE_LIMIT,
    ensures
        r == sin_s(x as int),
        -SCALE <= r <= SCALE,
{
    sin_fx_wide(x)
}

/// The fixed-point cosine of an angle in fixed-point radians.
pub fn cos_fx(x: i64) -> (r: i64)
    requires
        -ANGLE_LIMIT <= x <= ANGLE_LIMIT,
    ensures
        r == cos_s(x as int),
        -SCALE <= r <= SCALE,
{
    proof {
        reveal(cos_s);
    }
    sin_fx_wide(x + HALF_PI_FX)
}

/// The sine on a slightly wider domain, room for the cosine's quarter-turn
/// shift.
fn sin_fx_wide(x: i64) -> (r: i64)
    requires
        -ANGLE_LIMIT - HALF_PI_FX <= x <= ANGLE_LIMIT + HALF_PI_FX,
    ensures
        r == sin_s(x as int),
        -SCALE <= r <= SCALE,
{
    proof {
        reveal(sin_s);
        lemma_div_t_close(x as int, TWO_PI_FX as int);
        lemma_div_t_bound(x as int, TWO_PI_FX as int, 1_000_000_000_000_000int);
    }
    let q: i64 = x / TWO_PI_FX;
    let m0: i64 = x - q * TWO_PI_FX;
    let m: i64 = if m0 < 0 {
        m0 + TWO_PI_FX
    } else {
        m0
    };
    proof {
        if m0 < 0 {
            vstd::arithmetic::div_mod::lemma_fundamental_div_mod_converse(
                x as int,
                TWO_PI_FX as int,
                q as int - 1,
                m as int,
            );
        } else {
            vstd::arithmetic::div_mod::lemma_fundamental_div_mod_converse(
                x as int,
                TWO_PI_FX as int,
                q as int,
                m as int,
            );
        }
    }
    if m <= HALF_PI_FX {
        sinq_fx(m)
    } else if m <= PI_FX {
        sinq_fx(PI_FX - m)
    } else if m <= PI_FX + HALF_PI_FX {
        -sinq_fx(m - PI_FX)
    } else {
        -sinq_fx(TWO_PI_FX - m)
    }
}

/// Arctangent core on `[0, SCALE]`.
fn atanq_fx(u: i64) -> (r: i64)
    requires
        0 <= u <= SCALE,
    ensures
        r == atanq_s(u as int),
        0 <= r <= u,
{
    proof {
        reveal(atanq_s);
        lemma_mul_bounds(u as int, u as int, SCALE as int, SCALE as int);
        lemma_div_t_bound(u as int * u as int, SCALE as int, SCALE as int);
    }
    let u2: i64 = ((u as i128) * (u as i128) / (SCALE as i128)) as i64;
    proof {
        lemma_mul_nonneg(u as int, u as int);
        lemma_div_t_nonneg(u as int * u as int, SCALE as int);
        lemma_mul_bounds(u2 as int, 280_000_000int, SCALE as int, 280_000_000int);
        lemma_mul_nonneg(u2 as int, 280_000_000int);
        lemma_div_t_bound(u2 as int * 280_000_000, SCALE as int, 280_000_000int);
        lemma_div_t_nonneg(u2 as int * 280_000_000, SCALE as int);
    }
    let den: i64 = SCALE + ((u2 as i128) * 280_000_000i128 / (SCALE as i128)) as i64;
    proof {
        lemma_mul_bounds(u as int, SCALE as int, SCALE as int, SCALE as int);
        lemma_mul_nonneg(u as int, SCALE as int);
        lemma_atanq_le(u as int, den as int);
    }
    (((u as i128) * (SCALE as i128)) / (den as i128)) as i64
}

/// Dividing `u * SCALE` by a denominator at least `SCALE` cannot grow it
/// past `u`.
proof fn lemma_atanq_le(u: int, den: int)
    requires
        0 <= u,
        den >= SCALE,
    ensures
        0 <= div_t(u * (SCALE as int), den) <= u,
{
    lemma_div_t_close(u * (SCALE as int), den);
    assert(0 <= div_t(u * (SCALE as int), den) <= u) by (nonlinear_arith)
        requires
            0 <= u,
            den >= SCALE,
            SCALE == 1_000_000_000i64,
            u * (SCALE as int) >= 0,
            u * (SCALE as int) - den < (div_t(u * (SCALE as int), den)) * den <= u * (
            SCALE as int);
}

/// The fixed-point arctangent of a nonnegative ratio.
pub fn atan_fx(z: i64) -> (r: i64)
    requires
        0 <= z <= COORD_LIMIT,
    ensures
        r == atan_s(z as int),
        0 <= r <= HALF_PI_FX,
{
    proof {
        reveal(atan_s);
    }
    if z <= SCALE {
        atanq_fx(z)
    } else {
        proof {
            lemma_mul_bounds(SCALE as int, SCALE as int, SCALE as int, SCALE as int);
            lemma_mul_nonneg(SCALE as int, SCALE as int);
            assert((SCALE as int) * (SCALE as int) <= (SCALE as int) * (z as int))
                by (nonlinear_arith)
                requires
                    SCALE < z;
            lemma_div_t_bound(SCALE as int * SCALE as int, z as int, SCALE as int);
            lemma_div_t_nonneg(SCALE as int * SCALE as int, z as int);
        }
        let recip: i64 = ((SCALE as i128) * (SCALE as i128) / (z as i128)) as i64;
        HALF_PI_FX - atanq_fx(recip)
    }
}

} // verus!
