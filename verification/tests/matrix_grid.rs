//! Matrix constructors and products, and the line-grid mesh generator.

use fpscam::matrix::identity;
use fpscam::matrix::multiply_mat4x4;
use fpscam::matrix::scale;
use fpscam::matrix::translation;
use fpscam::matrix::Mat4x4;
use fpscam::utils::create_grid;
use fpscam::SCALE;

#[test]
fn identity_has_ones_down_the_diagonal() {
    let m: Mat4x4 = identity();
    for i in 0..4usize {
        for j in 0..4usize {
            let expected = if i == j { SCALE } else { 0 };
            assert_eq!(m[4 * i + j], expected);
        }
    }
}

#[test]
fn translation_puts_offsets_in_last_row() {
    let m: Mat4x4 = translation(SCALE, 2 * SCALE, 3 * SCALE);
    assert_eq!(m[12], SCALE);
    assert_eq!(m[13], 2 * SCALE);
    assert_eq!(m[14], 3 * SCALE);
    assert_eq!(m[0], SCALE);
    assert_eq!(m[5], SCALE);
    assert_eq!(m[10], SCALE);
    assert_eq!(m[15], SCALE);
    assert_eq!(m[1], 0);
}

#[test]
fn scale_puts_factors_down_the_diagonal() {
    let m: Mat4x4 = scale(2 * SCALE, 3 * SCALE, 4 * SCALE);
    assert_eq!(m[0], 2 * SCALE);
    assert_eq!(m[5], 3 * SCALE);
    assert_eq!(m[10], 4 * SCALE);
    assert_eq!(m[15], SCALE);
    assert_eq!(m[4], 0);
}

#[test]
fn multiplying_by_identity_changes_nothing() {
    let t: Mat4x4 = translation(SCALE, -2 * SCALE, 5 * SCALE);
    assert_eq!(multiply_mat4x4(t, identity()), t);
    assert_eq!(multiply_mat4x4(identity(), t), t);
}

#[test]
fn scales_multiply_entrywise() {
    let a: Mat4x4 = scale(2 * SCALE, 3 * SCALE, 4 * SCALE);
    let b: Mat4x4 = scale(5 * SCALE, 6 * SCALE, 7 * SCALE);
    let m = multiply_mat4x4(a, b);
    assert_eq!(m[0], 10 * SCALE);
    assert_eq!(m[5], 18 * SCALE);
    assert_eq!(m[10], 28 * SCALE);
    assert_eq!(m[15], SCALE);
}

#[test]
fn two_by_two_grid_mesh() {
    let (vertices, indices) = create_grid(2, 2);
    let half = 500_000_000i64;
    assert_eq!(
        vertices,
        vec![
            -half, 0, -half,
            -half, 0, half,
            half, 0, -half,
            half, 0, half,
        ]
    );
    assert_eq!(indices, vec![0u16, 1, 0, 2, 2, 3, 1, 3]);
}

#[test]
fn grid_counts_scale_with_extent() {
    let (vertices, indices) = create_grid(4, 4);
    assert_eq!(vertices.len(), 4 * 4 * 3);
    // Per cell: two indices toward the next row while one exists, and two
    // toward the next column while one exists.
    assert_eq!(indices.len(), 2 * (4 * 3) + 2 * (3 * 4));
}
