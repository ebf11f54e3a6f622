//! The starting configuration: a cube of fully alive cells around the middle
//! of the grid.

use crate::grid::{Grid, GridView};
use vstd::prelude::*;

verus! {

/// Size of the cube of live cells that the default grid starts from.
pub const START_SIZE: usize = 4;

/// Whether `c` lies no further than `size / 2` from the middle of an axis of
/// the given extent.
pub open spec fn near_middle(extent: nat, size: nat, c: int) -> bool {
    extent / 2 - size / 2 <= c <= extent / 2 + size / 2
}

impl GridView {
    /// Whether the cell `(x, y, z)` lies in the cube of the given size around
    /// the middle of the grid.
    pub open spec fn in_seed(self, size: nat, x: int, y: int, z: int) -> bool {
        &&& near_middle(self.width, size, x)
        &&& near_middle(self.height, size, y)
        &&& near_middle(self.depth, size, z)
    }

    /// The grid with every cell of the cube of the given size around its
    /// middle brought to full life, and every other cell as it is.
    pub open spec fn seeded(self, size: nat) -> GridView {
        self.rewritten(self.seeded_states(size))
    }

    /// The states of the seeded grid, cell by cell.
    pub open spec fn seeded_states(self, size: nat) -> spec_fn(int, int, int) -> nat {
        |x: int, y: int, z: int|
            if self.in_seed(size, x, y, z) {
                self.rules.full_life as nat
            } else {
                self.state(x, y, z)
            }
    }
}

/// Whether `c` lies no further than `size / 2` from the middle of an axis of
/// the given extent.
fn is_near_middle(extent: usize, size: usize, c: usize) -> (near: bool)
    ensures
        near == near_middle(extent as nat, size as nat, c as int),
{
    let middle: usize = extent / 2;
    if c >= middle {
        c - middle <= size / 2
    } else {
        middle - c <= size / 2
    }
}

/// Brings the cells of the cube of the given size around the middle of the
/// grid to full life. The cube reaches `size / 2` cells from the middle cell
/// in each direction, as far as the grid goes.
pub fn setup_starting_grid(grid: &mut Grid, size: usize)
    requires
        old(grid).wf(),
    ensures
        final(grid).wf(),
        final(grid)@ == old(grid)@.seeded(size as nat),
{
    let ghost before = grid@;
    let width: usize = grid.width();
    let height: usize = grid.height();
    let depth: usize = grid.depth();
    let mut x: usize = 0;
    while x < width
        invariant
            x <= width == before.width,
            height == before.height,
            depth == before.depth,
            before.wf(),
            grid.wf(),
            before.rewritten_before(grid@, before.seeded_states(size as nat), x as int, 0, 0),
        decreases width - x,
    {
        let mut y: usize = 0;
        while y < height
            invariant
                x < width == before.width,
                y <= height == before.height,
                depth == before.depth,
                before.wf(),
                grid.wf(),
                before.rewritten_before(
                    grid@,
                    before.seeded_states(size as nat),
                    x as int,
                    y as int,
                    0,
                ),
            decreases height - y,
        {
            let mut z: usize = 0;
            while z < depth
                invariant
                    x < width == before.width,
                    y < height == before.height,
                    z <= depth == before.depth,
                    before.wf(),
                    grid.wf(),
                    before.rewritten_before(
                        grid@,
                        before.seeded_states(size as nat),
                        x as int,
                        y as int,
                        z as int,
                    ),
                decreases depth - z,
            {
                let ghost previous = grid@;
                if is_near_middle(width, size, x) && is_near_middle(height, size, y)
                    && is_near_middle(depth, size, z) {
                    grid.enable_cell(x, y, z);
                }
                proof {
                    before.lemma_rewritten_next(
                        previous,
                        grid@,
                        before.seeded_states(size as nat),
                        x as int,
                        y as int,
                        z as int,
                    );
                }
                z += 1;
            }
            y += 1;
        }
        x += 1;
    }
    proof {
        before.lemma_rewritten_all(grid@, before.seeded_states(size as nat));
    }
}

} // verus!
