//! What the count of live neighbours comes to in a grid in which every cell
//! counts as alive: the number of a cell's neighbours that lie inside the
//! grid.

use crate::grid::GridView;
use vstd::prelude::*;

verus! {

/// One if `c` lies on an axis of the given extent, else zero.
pub open spec fn on_axis(extent: nat, c: int) -> nat {
    if 0 <= c < extent {
        1
    } else {
        0
    }
}

/// How many of `c - 1`, `c` and `c + 1` lie on an axis of the given extent.
pub open spec fn span(extent: nat, c: int) -> nat {
    on_axis(extent, c - 1) + on_axis(extent, c) + on_axis(extent, c + 1)
}

/// Whether `c` is the first or the last coordinate of an axis of the given
/// extent.
pub open spec fn at_end(extent: nat, c: int) -> bool {
    c == 0 || c == extent - 1
}

/// Whether `c` is a coordinate of an axis of the given extent, and neither
/// the first nor the last.
pub open spec fn strictly_inside(extent: nat, c: int) -> bool {
    0 < c < extent - 1
}

impl GridView {
    /// Every cell of the grid counts as alive.
    pub open spec fn all_alive(self) -> bool {
        forall|x: int, y: int, z: int| self.in_bounds(x, y, z) ==> #[trigger] self.alive(x, y, z)
    }
}

/// Three numbers that are each `s` or zero add up to `s` times the number of
/// those that are `s`.
proof fn lemma_three_shares(s: int, a: int, b: int, c: int)
    by (nonlinear_arith)
    requires
        0 <= a <= 1,
        0 <= b <= 1,
        0 <= c <= 1,
    ensures
        s * a + s * b + s * c == s * (a + b + c),
        a == 0 ==> s * a == 0,
        a == 1 ==> s * a == s,
        b == 0 ==> s * b == 0,
        b == 1 ==> s * b == s,
        c == 0 ==> s * c == 0,
        c == 1 ==> s * c == s,
{
}

/// In a grid in which every cell counts as alive, the live neighbours of a
/// cell are the positions around it that lie inside the grid: the product of
/// the spans of its three coordinates, less one for the cell itself.
pub proof fn lemma_full_grid_neighbours(grid: GridView, x: int, y: int, z: int)
    requires
        grid.all_alive(),
        grid.in_bounds(x, y, z),
    ensures
        grid.neighbour_count(x, y, z) == span(grid.width, x) * span(grid.height, y) * span(
            grid.depth,
            z,
        ) - 1,
{
    let sx = span(grid.width, x) as int;
    let sy = span(grid.height, y) as int;
    let sz = span(grid.depth, z) as int;
    assert forall|i: int, j: int, k: int| #[trigger]
        grid.occupancy(i, j, k) == if grid.in_bounds(i, j, k) {
            1nat
        } else {
            0nat
        } by {}
    assert forall|j: int, k: int| #[trigger]
        grid.row_occupancy(x, j, k) == if 0 <= j < grid.height && 0 <= k < grid.depth {
            sx
        } else {
            0
        } by {
        assert(grid.occupancy(x - 1, j, k) + grid.occupancy(x, j, k) + grid.occupancy(x + 1, j, k)
            == grid.row_occupancy(x, j, k));
    }
    assert forall|k: int| #[trigger]
        grid.plane_occupancy(x, y, k) == if 0 <= k < grid.depth {
            sx * sy
        } else {
            0
        } by {
        lemma_three_shares(
            sx,
            on_axis(grid.height, y - 1) as int,
            on_axis(grid.height, y) as int,
            on_axis(grid.height, y + 1) as int,
        );
        assert(grid.row_occupancy(x, y - 1, k) + grid.row_occupancy(x, y, k) + grid.row_occupancy(
            x,
            y + 1,
            k,
        ) == grid.plane_occupancy(x, y, k));
    }
    lemma_three_shares(
        sx * sy,
        on_axis(grid.depth, z - 1) as int,
        on_axis(grid.depth, z) as int,
        on_axis(grid.depth, z + 1) as int,
    );
    assert(grid.plane_occupancy(x, y, z - 1) + grid.plane_occupancy(x, y, z)
        + grid.plane_occupancy(x, y, z + 1) == grid.block_occupancy(x, y, z));
    assert(sx * sy * sz >= 1) by (nonlinear_arith)
        requires
            sx >= 1,
            sy >= 1,
            sz >= 1,
    ;
}

/// A corner cell of a grid in which every cell counts as alive, and which
/// has two cells or more along each axis, has exactly 7 live neighbours.
pub proof fn lemma_corner_neighbours(grid: GridView, x: int, y: int, z: int)
    requires
        grid.all_alive(),
        grid.width >= 2,
        grid.height >= 2,
        grid.depth >= 2,
        at_end(grid.width, x),
        at_end(grid.height, y),
        at_end(grid.depth, z),
    ensures
        grid.neighbour_count(x, y, z) == 7,
{
    lemma_full_grid_neighbours(grid, x, y, z);
    assert(span(grid.width, x) * span(grid.height, y) * span(grid.depth, z) == 8)
        by (nonlinear_arith)
        requires
            span(grid.width, x) == 2,
            span(grid.height, y) == 2,
            span(grid.depth, z) == 2,
    ;
}

/// A cell on an edge of such a grid that is no corner, at an end of two axes
/// and strictly inside the third, has exactly 11 live neighbours.
pub proof fn lemma_edge_neighbours(grid: GridView, x: int, y: int, z: int)
    requires
        grid.all_alive(),
        grid.width >= 2,
        grid.height >= 2,
        grid.depth >= 2,
        ({
            ||| strictly_inside(grid.width, x) && at_end(grid.height, y) && at_end(grid.depth, z)
            ||| at_end(grid.width, x) && strictly_inside(grid.height, y) && at_end(grid.depth, z)
            ||| at_end(grid.width, x) && at_end(grid.height, y) && strictly_inside(grid.depth, z)
        }),
    ensures
        grid.neighbour_count(x, y, z) == 11,
{
    lemma_full_grid_neighbours(grid, x, y, z);
    assert(span(grid.width, x) * span(grid.height, y) * span(grid.depth, z) == 12)
        by (nonlinear_arith)
        requires
            span(grid.width, x) + span(grid.height, y) + span(grid.depth, z) == 7,
            2 <= span(grid.width, x) <= 3,
            2 <= span(grid.height, y) <= 3,
            2 <= span(grid.depth, z) <= 3,
    ;
}

/// A cell strictly inside such a grid has exactly 26 live neighbours.
pub proof fn lemma_interior_neighbours(grid: GridView, x: int, y: int, z: int)
    requires
        grid.all_alive(),
        strictly_inside(grid.width, x),
        strictly_inside(grid.height, y),
        strictly_inside(grid.depth, z),
    ensures
        grid.neighbour_count(x, y, z) == 26,
{
    lemma_full_grid_neighbours(grid, x, y, z);
    assert(span(grid.width, x) * span(grid.height, y) * span(grid.depth, z) == 27)
        by (nonlinear_arith)
        requires
            span(grid.width, x) == 3,
            span(grid.height, y) == 3,
            span(grid.depth, z) == 3,
    ;
}

/// No cell has more than 26 live neighbours.
pub proof fn lemma_neighbour_count_bound(grid: GridView, x: int, y: int, z: int)
    ensures
        grid.neighbour_count(x, y, z) <= 26,
{
}

} // verus!
