//! Row-major layout of a three-dimensional grid in one sequence: the cell
//! `(x, y, z)` of a grid of height `h` and depth `d` stands at
//! `(x * h + y) * d + z`.

use vstd::prelude::*;

verus! {

/// Position of the cell `(x, y, z)` in the sequence of cells.
pub open spec fn cell_index(height: nat, depth: nat, x: int, y: int, z: int) -> int {
    (x * height + y) * depth + z
}

/// Whether `(i, j, k)` comes before `(x, y, z)` when the cells are walked
/// with `x` outermost and `z` innermost.
pub open spec fn walked_before(i: int, j: int, k: int, x: int, y: int, z: int) -> bool {
    i < x || (i == x && (j < y || (j == y && k < z)))
}

/// A number has but one quotient and one remainder by `d`.
proof fn lemma_quotient_remainder_unique(q1: int, r1: int, q2: int, r2: int, d: int)
    by (nonlinear_arith)
    requires
        0 <= r1 < d,
        0 <= r2 < d,
        q1 * d + r1 == q2 * d + r2,
    ensures
        q1 == q2,
        r1 == r2,
{
}

/// A bound on a row-major position in two dimensions.
proof fn lemma_position_bound(a: int, b: int, n: int, m: int)
    by (nonlinear_arith)
    requires
        0 <= a < n,
        0 <= b < m,
    ensures
        0 <= a * m + b < n * m,
{
}

/// Every cell inside the grid has a position inside the sequence.
pub proof fn lemma_cell_index_bounds(
    width: nat,
    height: nat,
    depth: nat,
    x: int,
    y: int,
    z: int,
)
    requires
        0 <= x < width,
        0 <= y < height,
        0 <= z < depth,
    ensures
        0 <= cell_index(height, depth, x, y, z) < width * height * depth,
{
    lemma_position_bound(x, y, width as int, height as int);
    lemma_position_bound(x * height + y, z, (width * height) as int, depth as int);
}

/// Different cells have different positions.
pub proof fn lemma_cell_index_injective(
    height: nat,
    depth: nat,
    x1: int,
    y1: int,
    z1: int,
    x2: int,
    y2: int,
    z2: int,
)
    requires
        0 <= y1 < height,
        0 <= z1 < depth,
        0 <= y2 < height,
        0 <= z2 < depth,
        cell_index(height, depth, x1, y1, z1) == cell_index(height, depth, x2, y2, z2),
    ensures
        x1 == x2,
        y1 == y2,
        z1 == z2,
{
    lemma_quotient_remainder_unique(
        x1 * height + y1,
        z1,
        x2 * height + y2,
        z2,
        depth as int,
    );
    lemma_quotient_remainder_unique(x1, y1, x2, y2, height as int);
}

/// Each extent of a grid with a cell in it is at most the grid's volume.
pub proof fn lemma_extent_le_volume(width: nat, height: nat, depth: nat)
    by (nonlinear_arith)
    requires
        width >= 1,
        height >= 1,
        depth >= 1,
    ensures
        width <= width * height * depth,
        height <= width * height * depth,
        depth <= width * height * depth,
        width * height <= width * height * depth,
{
}

} // verus!
