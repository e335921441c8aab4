//! Column-major four-by-four matrices over the fixed-point scalar, as flat
//! sixteen-element arrays: translation and scale constructors and a matrix
//! product whose entries are brought back to scale by a truncating division.

use vstd::prelude::*;
use crate::fixed::div_t;
use crate::fixed::lemma_div_t_bound;
use crate::fixed::lemma_mul_bounds;
use crate::fixed::SCALE;

verus! {

/// A four-by-four matrix, sixteen fixed-point entries in column-major order.
pub type Mat4x4 = [i64; 16];

/// Largest entry magnitude the matrix product accepts.
pub const MAT_LIMIT: i64 = 1_000_000_000_000;

/// Every entry of `m` has magnitude at most `b`.
pub open spec fn mat_bounded(m: Seq<i64>, b: int) -> bool {
    forall|k: int| 0 <= k < 16 ==> -b <= #[trigger] m[k] <= b
}

/// The identity matrix: ones down the diagonal.
pub open spec fn identity_s() -> Seq<i64> {
    seq![
        SCALE, 0i64, 0i64, 0i64,
        0i64, SCALE, 0i64, 0i64,
        0i64, 0i64, SCALE, 0i64,
        0i64, 0i64, 0i64, SCALE,
    ]
}

/// A translation matrix: the identity with the offsets in the last column.
pub open spec fn translation_s(tx: i64, ty: i64, tz: i64) -> Seq<i64> {
    seq![
        SCALE, 0i64, 0i64, 0i64,
        0i64, SCALE, 0i64, 0i64,
        0i64, 0i64, SCALE, 0i64,
        tx, ty, tz, SCALE,
    ]
}

/// A scale matrix: the factors down the diagonal.
pub open spec fn scale_s(sx: i64, sy: i64, sz: i64) -> Seq<i64> {
    seq![
        sx, 0i64, 0i64, 0i64,
        0i64, sy, 0i64, 0i64,
        0i64, 0i64, sz, 0i64,
        0i64, 0i64, 0i64, SCALE,
    ]
}

/// Row `i` of `a` times column `j` of `b`, brought back to scale.
pub open spec fn mat_mul_entry_s(a: Seq<i64>, b: Seq<i64>, i: int, j: int) -> int {
    div_t(
        (a[4 * i] as int) * (b[j] as int) + (a[4 * i + 1] as int) * (b[4 + j] as int) + (a[4 * i
            + 2] as int) * (b[8 + j] as int) + (a[4 * i + 3] as int) * (b[12 + j] as int),
        SCALE as int,
    )
}

/// The identity matrix.
pub fn identity() -> (r: Mat4x4)
    ensures
        r@ == identity_s(),
{
    let r: Mat4x4 = [
        SCALE, 0, 0, 0,
        0, SCALE, 0, 0,
        0, 0, SCALE, 0,
        0, 0, 0, SCALE,
    ];
    proof {
        assert(r@ =~= identity_s());
    }
    r
}

/// A matrix that translates by `(tx, ty, tz)`.
pub fn translation(tx: i64, ty: i64, tz: i64) -> (r: Mat4x4)
    ensures
        r@ == translation_s(tx, ty, tz),
{
    let r: Mat4x4 = [
        SCALE, 0, 0, 0,
        0, SCALE, 0, 0,
        0, 0, SCALE, 0,
        tx, ty, tz, SCALE,
    ];
    proof {
        assert(r@ =~= translation_s(tx, ty, tz));
    }
    r
}

/// A matrix that scales by `(sx, sy, sz)`.
pub fn scale(sx: i64, sy: i64, sz: i64) -> (r: Mat4x4)
    ensures
        r@ == scale_s(sx, sy, sz),
{
    let r: Mat4x4 = [
        sx, 0, 0, 0,
        0, sy, 0, 0,
        0, 0, sz, 0,
        0, 0, 0, SCALE,
    ];
    proof {
        assert(r@ =~= scale_s(sx, sy, sz));
    }
    r
}

/// One entry of the matrix product.
fn mm_entry(a: &Mat4x4, b: &Mat4x4, i: usize, j: usize) -> (r: i64)
    requires
        i < 4,
        j < 4,
        mat_bounded(a@, MAT_LIMIT as int),
        mat_bounded(b@, MAT_LIMIT as int),
    ensures
        r == mat_mul_entry_s(a@, b@, i as int, j as int),
        -4_000_000_000_000_000 <= r <= 4_000_000_000_000_000,
{
    proof {
        lemma_mul_bounds(a@[4 * i] as int, b@[j as int] as int, MAT_LIMIT as int, MAT_LIMIT as int);
        lemma_mul_bounds(
            a@[4 * i + 1] as int,
            b@[4 + j] as int,
            MAT_LIMIT as int,
            MAT_LIMIT as int,
        );
        lemma_mul_bounds(
            a@[4 * i + 2] as int,
            b@[8 + j] as int,
            MAT_LIMIT as int,
            MAT_LIMIT as int,
        );
        lemma_mul_bounds(
            a@[4 * i + 3] as int,
            b@[12 + j] as int,
            MAT_LIMIT as int,
            MAT_LIMIT as int,
        );
        lemma_div_t_bound(
            (a@[4 * i] as int) * (b@[j as int] as int) + (a@[4 * i + 1] as int) * (b@[4 + j] as int)
                + (a@[4 * i + 2] as int) * (b@[8 + j] as int) + (a@[4 * i + 3] as int) * (b@[12
                + j] as int),
            SCALE as int,
            4_000_000_000_000_000int,
        );
    }
    let s: i128 = (a[4 * i] as i128) * (b[j] as i128) + (a[4 * i + 1] as i128) * (b[4 + j] as i128)
        + (a[4 * i + 2] as i128) * (b[8 + j] as i128) + (a[4 * i + 3] as i128) * (b[12
        + j] as i128);
    (s / (SCALE as i128)) as i64
}

/// The matrix product: row `i` of `a` against column `j` of `b` in every
/// entry, each brought back to scale.
pub fn multiply_mat4x4(a: Mat4x4, b: Mat4x4) -> (r: Mat4x4)
    requires
        mat_bounded(a@, MAT_LIMIT as int),
        mat_bounded(b@, MAT_LIMIT as int),
    ensures
        forall|i: int, j: int|
            0 <= i < 4 && 0 <= j < 4 ==> #[trigger] r@[4 * i + j] == mat_mul_entry_s(a@, b@, i, j),
{
    let mut r: Mat4x4 = [0; 16];
    let mut i: usize = 0;
    while i < 4
        invariant
            i <= 4,
            mat_bounded(a@, MAT_LIMIT as int),
            mat_bounded(b@, MAT_LIMIT as int),
            r@.len() == 16,
            forall|p: int, q: int|
                0 <= p < i && 0 <= q < 4 ==> #[trigger] r@[4 * p + q] == mat_mul_entry_s(
                    a@,
                    b@,
                    p,
                    q,
                ),
        decreases 4 - i,
    {
        let mut j: usize = 0;
        while j < 4
            invariant
                i < 4,
                j <= 4,
                mat_bounded(a@, MAT_LIMIT as int),
                mat_bounded(b@, MAT_LIMIT as int),
                r@.len() == 16,
                forall|p: int, q: int|
                    0 <= p < i && 0 <= q < 4 ==> #[trigger] r@[4 * p + q] == mat_mul_entry_s(
                        a@,
                        b@,
                        p,
                        q,
                    ),
                forall|q: int|
                    0 <= q < j ==> #[trigger] r@[4 * i + q] == mat_mul_entry_s(a@, b@, i as int, q),
            decreases 4 - j,
        {
            r[4 * i + j] = mm_entry(&a, &b, i, j);
            j = j + 1;
        }
        i = i + 1;
    }
    r
}

} // verus!
