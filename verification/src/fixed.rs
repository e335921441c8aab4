//! Fixed-point scalar arithmetic.
//!
//! A real quantity is held as an `i64` count of units of `1 / SCALE`, so the
//! real value `1.0` is the integer `SCALE`. All rounding is toward zero, the
//! semantics of `/` on Rust's signed integers, captured by the spec function
//! `div_t`.

use vstd::prelude::*;

verus! {

/// Number of integer units that stand for the real value one.
pub const SCALE: i64 = 1_000_000_000;

/// Largest coordinate magnitude the vector operations accept.
pub const COORD_LIMIT: i64 = 1_000_000_000_000_000;

/// Largest magnitude accepted for the near-unit factor of a fixed-point product.
pub const FACTOR_LIMIT: i64 = 10_000_000_000;

/// Division rounding toward zero, the meaning of `/` on signed integers.
pub open spec fn div_t(a: int, d: int) -> int
    recommends
        d > 0,
{
    if a >= 0 {
        a / d
    } else {
        -((-a) / d)
    }
}

/// The fixed-point product of `a` and `b`: their integer product brought back
/// to scale, rounded toward zero.
pub open spec fn mul_fx_s(a: int, b: int) -> int {
    div_t(a * b, SCALE as int)
}

/// The fixed-point quotient of `a` by a positive `b`: `a` raised to double
/// scale, divided by `b`, rounded toward zero.
pub open spec fn div_fx_s(a: int, b: int) -> int
    recommends
        b > 0,
{
    div_t(a * (SCALE as int), b)
}

/// Rounding toward zero loses less than one unit of the divisor: the quotient
/// times the divisor stays within `d - 1` of the dividend and never grows in
/// magnitude past it.
pub proof fn lemma_div_t_close(a: int, d: int)
    requires
        d > 0,
    ensures
        a >= 0 ==> a - d < (div_t(a, d)) * d <= a,
        a <= 0 ==> a <= (div_t(a, d)) * d < a + d,
{
    if a >= 0 {
        lemma_trunc_nonneg(a, d);
    } else {
        lemma_trunc_nonneg(-a, d);
        assert((div_t(a, d)) * d == -((-a) / d * d)) by (nonlinear_arith)
            requires
                div_t(a, d) == -((-a) / d);
    }
}

/// For a nonnegative dividend, Euclidean division rounds down by less than `d`.
proof fn lemma_trunc_nonneg(a: int, d: int)
    requires
        a >= 0,
        d > 0,
    ensures
        a - d < (a / d) * d <= a,
        a / d >= 0,
{
    vstd::arithmetic::div_mod::lemma_fundamental_div_mod(a, d);
    vstd::arithmetic::div_mod::lemma_mod_bound(a, d);
    vstd::arithmetic::div_mod::lemma_div_pos_is_pos(a, d);
    vstd::arithmetic::mul::lemma_mul_is_commutative(a / d, d);
}

/// Division toward zero is odd: negating the dividend negates the quotient.
pub proof fn lemma_div_t_neg(a: int, d: int)
    requires
        d > 0,
    ensures
        div_t(-a, d) == -div_t(a, d),
{
}

/// A bound on the dividend gives the same bound, shrunk by the divisor, on the
/// quotient.
pub proof fn lemma_div_t_bound(a: int, d: int, b: int)
    requires
        d > 0,
        b >= 0,
        -b * d <= a <= b * d,
    ensures
        -b <= div_t(a, d) <= b,
{
    lemma_div_t_close(a, d);
    assert(-b <= div_t(a, d) <= b) by (nonlinear_arith)
        requires
            d > 0,
            b >= 0,
            -b * d <= a <= b * d,
            a >= 0 ==> a - d < (div_t(a, d)) * d <= a,
            a <= 0 ==> a <= (div_t(a, d)) * d < a + d;
}

/// A product of nonnegative factors is nonnegative.
pub proof fn lemma_mul_nonneg(a: int, b: int)
    requires
        a >= 0,
        b >= 0,
    ensures
        a * b >= 0,
{
    assert(a * b >= 0) by (nonlinear_arith)
        requires
            a >= 0,
            b >= 0;
}

/// A nonnegative dividend gives a nonnegative quotient.
pub proof fn lemma_div_t_nonneg(a: int, d: int)
    requires
        a >= 0,
        d > 0,
    ensures
        div_t(a, d) >= 0,
{
    lemma_trunc_nonneg(a, d);
}

/// Dividing an exact multiple is exact.
pub proof fn lemma_div_t_exact(a: int, d: int)
    requires
        d > 0,
    ensures
        div_t(a * d, d) == a,
{
    if a >= 0 {
        lemma_mul_nonneg(a, d);
        vstd::arithmetic::div_mod::lemma_div_by_multiple(a, d);
    } else {
        lemma_mul_nonneg(-a, d);
        vstd::arithmetic::div_mod::lemma_div_by_multiple(-a, d);
        assert(-(a * d) == (-a) * d) by (nonlinear_arith);
    }
}

/// Bounds on two factors bound their product.
pub proof fn lemma_mul_bounds(a: int, b: int, ba: int, bb: int)
    requires
        ba >= 0,
        bb >= 0,
        -ba <= a <= ba,
        -bb <= b <= bb,
    ensures
        -(ba * bb) <= a * b <= ba * bb,
{
    assert(-(ba * bb) <= a * b <= ba * bb) by (nonlinear_arith)
        requires
            ba >= 0,
            bb >= 0,
            -ba <= a <= ba,
            -bb <= b <= bb;
}

/// Fixed-point product of a near-unit factor `a` and a general factor `b`.
pub fn mul_fx(a: i64, b: i64) -> (r: i64)
    requires
        -FACTOR_LIMIT <= a <= FACTOR_LIMIT,
        -COORD_LIMIT <= b <= COORD_LIMIT,
    ensures
        r == mul_fx_s(a as int, b as int),
        -10 * COORD_LIMIT <= r <= 10 * COORD_LIMIT,
{
    proof {
        assert(-(FACTOR_LIMIT as int) * (COORD_LIMIT as int) <= a * b <= (FACTOR_LIMIT as int)
            * (COORD_LIMIT as int)) by (nonlinear_arith)
            requires
                -FACTOR_LIMIT <= a <= FACTOR_LIMIT,
                -COORD_LIMIT <= b <= COORD_LIMIT;
        lemma_div_t_bound(a as int * b as int, SCALE as int, 10 * COORD_LIMIT as int);
    }
    let p: i128 = (a as i128) * (b as i128);
    (p / (SCALE as i128)) as i64
}

/// Fixed-point quotient of `a` by a positive `b`, both at scale.
pub fn div_fx(a: i64, b: i64) -> (r: i64)
    requires
        -COORD_LIMIT <= a <= COORD_LIMIT,
        b > 0,
        -COORD_LIMIT * b <= a * SCALE <= COORD_LIMIT * b,
    ensures
        r == div_fx_s(a as int, b as int),
        -COORD_LIMIT <= r <= COORD_LIMIT,
{
    proof {
        lemma_div_t_bound(a as int * SCALE as int, b as int, COORD_LIMIT as int);
    }
    let p: i128 = (a as i128) * (SCALE as i128);
    (p / (b as i128)) as i64
}

/// The integer square root, defined by counting up: the greatest `r` with
/// `r * r <= n` (and `0` for negative arguments).
pub open spec fn sqrt_s(n: int) -> int
    decreases
            (if n >= 0 {
                n
            } else {
                0
            }),
{
    if n <= 0 {
        0
    } else {
        let p = sqrt_s(n - 1);
        if (p + 1) * (p + 1) <= n {
            p + 1
        } else {
            p
        }
    }
}

/// `sqrt_s` is the integer square root: it is nonnegative, its square is at
/// most `n`, and the next square is past `n`.
pub proof fn lemma_sqrt_s_bounds(n: int)
    requires
        n >= 0,
    ensures
        0 <= sqrt_s(n),
        sqrt_s(n) * sqrt_s(n) <= n,
        n < (sqrt_s(n) + 1) * (sqrt_s(n) + 1),
    decreases n,
{
    if n == 0 {
    } else {
        lemma_sqrt_s_bounds(n - 1);
        let p = sqrt_s(n - 1);
        if (p + 1) * (p + 1) <= n {
            assert(n < ((p + 1) + 1) * ((p + 1) + 1)) by (nonlinear_arith)
                requires
                    n - 1 < (p + 1) * (p + 1),
                    p >= 0;
        }
    }
}

/// Any `r` whose square brackets `n` is `sqrt_s(n)`.
pub proof fn lemma_sqrt_unique(n: int, r: int)
    requires
        n >= 0,
        r >= 0,
        r * r <= n,
        n < (r + 1) * (r + 1),
    ensures
        r == sqrt_s(n),
{
    lemma_sqrt_s_bounds(n);
    let s = sqrt_s(n);
    assert(r == s) by (nonlinear_arith)
        requires
            r >= 0,
            s >= 0,
            r * r <= n,
            n < (r + 1) * (r + 1),
            s * s <= n,
            n < (s + 1) * (s + 1);
}

/// Integer square root: the greatest `r` with `r * r <= n`.
pub fn isqrt(n: u128) -> (r: u64)
    ensures
        r == sqrt_s(n as int),
        (r as int) * (r as int) <= n as int,
        (n as int) < ((r as int) + 1) * ((r as int) + 1),
{
    let mut lo: u64 = 0;
    let mut hi: u64 = 0xFFFF_FFFF_FFFF_FFFF;
    // Invariant: lo * lo <= n and (hi + 1) * (hi + 1) > n.
    proof {
        assert(((hi as int) + 1) * ((hi as int) + 1) > n as int) by (nonlinear_arith)
            requires
                hi == 0xFFFF_FFFF_FFFF_FFFFu64,
                n <= 0xFFFF_FFFF_FFFF_FFFF_FFFF_FFFF_FFFF_FFFFu128;
    }
    while lo < hi
        invariant
            (lo as int) * (lo as int) <= n as int,
            (n as int) < ((hi as int) + 1) * ((hi as int) + 1),
            lo <= hi,
        decreases hi - lo,
    {
        let mid: u64 = lo + (hi - lo) / 2 + 1;
        proof {
            assert((mid as int) * (mid as int)
                <= 0xFFFF_FFFF_FFFF_FFFF_FFFF_FFFF_FFFF_FFFFint) by (nonlinear_arith)
                requires
                    mid <= 0xFFFF_FFFF_FFFF_FFFFu64;
        }
        let sq: u128 = (mid as u128) * (mid as u128);
        if sq <= n {
            lo = mid;
        } else {
            proof {
                assert((mid as int) * (mid as int) > n as int);
            }
            hi = mid - 1;
        }
    }
    proof {
        lemma_sqrt_unique(n as int, lo as int);
    }
    lo
}

/// Clamp a value into `[lo, hi]`, the guard that keeps pitch off the poles.
pub fn clamp_i64(value: i64, lo: i64, hi: i64) -> (r: i64)
    requires
        lo <= hi,
    ensures
        r == clamp_s(value as int, lo as int, hi as int),
{
    if value < lo {
        lo
    } else if value > hi {
        hi
    } else {
        value
    }
}

/// The clamp of `value` into `[lo, hi]`.
pub open spec fn clamp_s(value: int, lo: int, hi: int) -> int {
    if value < lo {
        lo
    } else if value > hi {
        hi
    } else {
        value
    }
}

} // verus!
