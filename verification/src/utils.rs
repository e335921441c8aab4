//! Grid mesh generation: a flat lattice of vertices on the ground plane and
//! the index pairs that join each lattice point to its neighbors as lines.

use vstd::prelude::*;
use crate::fixed::SCALE;

verus! {

/// Half of one unit: grid vertices sit halfway between whole coordinates.
pub const HALF_UNIT: i64 = 500_000_000;

/// One vertex triple of the lattice: the point
/// `(a - hw + 1/2, 0, b - hd + 1/2)` in fixed point.
pub open spec fn grid_vertex_s(hw: int, hd: int, a: int, b: int) -> Seq<i64> {
    seq![
        ((a - hw) * (SCALE as int) + (HALF_UNIT as int)) as i64,
        0i64,
        ((b - hd) * (SCALE as int) + (HALF_UNIT as int)) as i64,
    ]
}

/// The vertex triples of row `a`, for the cells `(a, 0)` up to `(a, b)`
/// exclusive.
pub open spec fn grid_vertex_row_s(hw: int, hd: int, a: int, b: int) -> Seq<i64>
    decreases
            (if b >= 0 {
                b
            } else {
                0
            }),
{
    if b <= 0 {
        Seq::empty()
    } else {
        grid_vertex_row_s(hw, hd, a, b - 1) + grid_vertex_s(hw, hd, a, b - 1)
    }
}

/// The vertex triples of the rows `0` up to `a` exclusive, each of `2 * hd`
/// cells.
pub open spec fn grid_vertices_s(hw: int, hd: int, a: int) -> Seq<i64>
    decreases
            (if a >= 0 {
                a
            } else {
                0
            }),
{
    if a <= 0 {
        Seq::empty()
    } else {
        grid_vertices_s(hw, hd, a - 1) + grid_vertex_row_s(hw, hd, a - 1, 2 * hd)
    }
}

/// The line indices contributed by lattice cell `(z, x)`: a segment to the
/// next cell along `z` while one exists, and one to the next cell along `x`
/// while one exists.
pub open spec fn grid_cell_indices_s(width: int, depth: int, z: int, x: int) -> Seq<u16> {
    let idx = z + x * depth;
    let along_z: Seq<u16> = if z < depth - 1 {
        seq![idx as u16, (idx + 1) as u16]
    } else {
        Seq::empty()
    };
    let along_x: Seq<u16> = if x < width - 1 {
        seq![idx as u16, (idx + depth) as u16]
    } else {
        Seq::empty()
    };
    along_z + along_x
}

/// The indices of one grid row, for the cells `(z, 0)` up to `(z, x)`
/// exclusive.
pub open spec fn grid_row_indices_s(width: int, depth: int, z: int, x: int) -> Seq<u16>
    decreases
            (if x >= 0 {
                x
            } else {
                0
            }),
{
    if x <= 0 {
        Seq::empty()
    } else {
        grid_row_indices_s(width, depth, z, x - 1) + grid_cell_indices_s(width, depth, z, x - 1)
    }
}

/// The indices of the grid rows `0` up to `z` exclusive.
pub open spec fn grid_indices_s(width: int, depth: int, z: int) -> Seq<u16>
    decreases
            (if z >= 0 {
                z
            } else {
                0
            }),
{
    if z <= 0 {
        Seq::empty()
    } else {
        grid_indices_s(width, depth, z - 1) + grid_row_indices_s(width, depth, z - 1, width)
    }
}

/// Build a `width` by `depth` line grid on the ground plane: the vertices of
/// every lattice cell, centered on the origin, and the index pairs that draw
/// the lattice as line segments.
pub fn create_grid(width: usize, depth: usize) -> (r: (Vec<i64>, Vec<u16>))
    requires
        width >= 1,
        depth >= 1,
        width * depth <= 65536,
    ensures
        r.0@ == grid_vertices_s(width as int / 2, depth as int / 2, 2 * (width as int / 2)),
        r.1@ == grid_indices_s(width as int, depth as int, depth as int),
{
    let half_width = width / 2;
    let half_depth = depth / 2;
    let span_x = 2 * half_width;
    let span_z = 2 * half_depth;
    let mut vertices: Vec<i64> = Vec::new();
    let mut a: usize = 0;
    while a < span_x
        invariant
            a <= span_x,
            span_x == 2 * half_width,
            span_z == 2 * half_depth,
            half_width == width / 2,
            half_depth == depth / 2,
            width * depth <= 65536,
            width >= 1,
            depth >= 1,
            vertices@ == grid_vertices_s(half_width as int, half_depth as int, a as int),
        decreases span_x - a,
    {
        let mut b: usize = 0;
        while b < span_z
            invariant
                a < span_x,
                b <= span_z,
                span_x == 2 * half_width,
                span_z == 2 * half_depth,
                half_width == width / 2,
                half_depth == depth / 2,
                width * depth <= 65536,
                width >= 1,
                depth >= 1,
                vertices@ == grid_vertices_s(half_width as int, half_depth as int, a as int)
                    + grid_vertex_row_s(half_width as int, half_depth as int, a as int, b as int),
            decreases span_z - b,
        {
            proof {
                lemma_grid_sizes(
                    width as int,
                    depth as int,
                    half_width as int,
                    half_depth as int,
                    a as int,
                    b as int,
                );
            }
            let cx: i64 = (a as i64 - half_width as i64) * SCALE + HALF_UNIT;
            let cz: i64 = (b as i64 - half_depth as i64) * SCALE + HALF_UNIT;
            vertices.push(cx);
            vertices.push(0);
            vertices.push(cz);
            proof {
                assert(grid_vertex_row_s(
                    half_width as int,
                    half_depth as int,
                    a as int,
                    b as int + 1,
                ) == grid_vertex_row_s(half_width as int, half_depth as int, a as int, b as int)
                    + grid_vertex_s(half_width as int, half_depth as int, a as int, b as int));
                assert(vertices@ =~= grid_vertices_s(
                    half_width as int,
                    half_depth as int,
                    a as int,
                ) + grid_vertex_row_s(half_width as int, half_depth as int, a as int, b as int + 1));
            }
            b = b + 1;
        }
        proof {
            assert(grid_vertices_s(half_width as int, half_depth as int, a as int + 1)
                == grid_vertices_s(half_width as int, half_depth as int, a as int)
                + grid_vertex_row_s(half_width as int, half_depth as int, a as int, 2 * (
            half_depth as int)));
        }
        a = a + 1;
    }
    let mut indices: Vec<u16> = Vec::new();
    let mut z: usize = 0;
    while z < depth
        invariant
            z <= depth,
            width >= 1,
            depth >= 1,
            width * depth <= 65536,
            indices@ == grid_indices_s(width as int, depth as int, z as int),
        decreases depth - z,
    {
        let mut x: usize = 0;
        while x < width
            invariant
                z < depth,
                x <= width,
                width >= 1,
                depth >= 1,
                width * depth <= 65536,
                indices@ == grid_indices_s(width as int, depth as int, z as int)
                    + grid_row_indices_s(width as int, depth as int, z as int, x as int),
            decreases width - x,
        {
            proof {
                lemma_grid_index_bounds(width as int, depth as int, z as int, x as int);
            }
            let index = z + x * depth;
            if z < depth - 1 {
                indices.push(index as u16);
                indices.push((index + 1) as u16);
            }
            if x < width - 1 {
                indices.push(index as u16);
                indices.push((index + depth) as u16);
            }
            proof {
                assert(grid_row_indices_s(width as int, depth as int, z as int, x as int + 1)
                    == grid_row_indices_s(width as int, depth as int, z as int, x as int)
                    + grid_cell_indices_s(width as int, depth as int, z as int, x as int));
                assert(indices@ =~= grid_indices_s(width as int, depth as int, z as int)
                    + grid_row_indices_s(width as int, depth as int, z as int, x as int + 1));
            }
            x = x + 1;
        }
        proof {
            assert(grid_indices_s(width as int, depth as int, z as int + 1) == grid_indices_s(
                width as int,
                depth as int,
                z as int,
            ) + grid_row_indices_s(width as int, depth as int, z as int, width as int));
        }
        z = z + 1;
    }
    (vertices, indices)
}

/// Bounds for one lattice cell: the half extents and the cell coordinates
/// are small, so the scaled coordinates stay well inside the integer range.
proof fn lemma_grid_sizes(width: int, depth: int, hw: int, hd: int, a: int, b: int)
    requires
        width >= 1,
        depth >= 1,
        width * depth <= 65536,
        hw == width / 2,
        hd == depth / 2,
        0 <= a < 2 * hw,
        0 <= b < 2 * hd,
    ensures
        0 <= hw <= 32768,
        0 <= hd <= 32768,
        -32768 <= a - hw <= 65536,
        -32768 <= b - hd <= 65536,
        -40_000_000_000_000 <= (a - hw) * (SCALE as int) <= 70_000_000_000_000,
        -40_000_000_000_000 <= (b - hd) * (SCALE as int) <= 70_000_000_000_000,
{
    assert(hw <= 32768 && hd <= 32768) by (nonlinear_arith)
        requires
            width >= 1,
            depth >= 1,
            width * depth <= 65536,
            hw == width / 2,
            hd == depth / 2,
    ;
    assert(-40_000_000_000_000 <= (a - hw) * (SCALE as int) <= 70_000_000_000_000
        && -40_000_000_000_000 <= (b - hd) * (SCALE as int) <= 70_000_000_000_000)
        by (nonlinear_arith)
        requires
            -32768 <= a - hw <= 65536,
            -32768 <= b - hd <= 65536,
            SCALE == 1_000_000_000i64,
    ;
}

/// The flat index of one grid cell, and its two neighbors, fit in sixteen
/// bits.
proof fn lemma_grid_index_bounds(width: int, depth: int, z: int, x: int)
    requires
        width >= 1,
        depth >= 1,
        width * depth <= 65536,
        0 <= z < depth,
        0 <= x < width,
    ensures
        0 <= z + x * depth,
        z < depth - 1 ==> z + x * depth + 1 <= width * depth - 1,
        x < width - 1 ==> z + x * depth + depth <= width * depth - 1,
        z + x * depth <= width * depth - 1,
{
    assert(0 <= z + x * depth && z + x * depth <= width * depth - 1 && (z < depth - 1 ==> z + x
        * depth + 1 <= width * depth - 1) && (x < width - 1 ==> z + x * depth + depth <= width
        * depth - 1)) by (nonlinear_arith)
        requires
            width >= 1,
            depth >= 1,
            0 <= z < depth,
            0 <= x < width,
    ;
}

} // verus!
