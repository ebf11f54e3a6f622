//! One generation of the automaton: every cell takes its next state from
//! the grid as it was before the step.

use crate::grid::{Grid, GridView};
use vstd::prelude::*;

verus! {

impl GridView {
    /// The state of the cell `(x, y, z)` in the next generation.
    pub open spec fn next_state(self, x: int, y: int, z: int) -> nat
        recommends
            self.in_bounds(x, y, z),
    {
        self.rules.next_state(self.state(x, y, z), self.neighbour_count(x, y, z))
    }

    /// The next generation: the grid in which every cell has the state that
    /// the rule gives it from its state and its live neighbours in `self`.
    pub open spec fn successor(self) -> GridView {
        self.rewritten(self.next_states())
    }

    /// The states of the next generation, cell by cell.
    pub open spec fn next_states(self) -> spec_fn(int, int, int) -> nat {
        |x: int, y: int, z: int| self.next_state(x, y, z)
    }
}

/// The next generation of a well-formed grid is a well-formed grid of the
/// same extent and rule.
pub proof fn lemma_successor_wf(grid: GridView)
    requires
        grid.wf(),
    ensures
        grid.successor().wf(),
        grid.successor().width == grid.width,
        grid.successor().height == grid.height,
        grid.successor().depth == grid.depth,
        grid.successor().rules == grid.rules,
{
}

/// Survival: a fully alive cell with exactly `survive` live neighbours stays
/// fully alive in the next generation; with any other number of them it
/// loses exactly one step of life.
pub proof fn lemma_survival_rule(grid: GridView, x: int, y: int, z: int)
    requires
        grid.wf(),
        grid.in_bounds(x, y, z),
        grid.state(x, y, z) == grid.rules.full_life,
    ensures
        grid.neighbour_count(x, y, z) == grid.rules.survive ==> grid.successor().state(x, y, z)
            == grid.rules.full_life,
        grid.neighbour_count(x, y, z) != grid.rules.survive ==> grid.successor().state(x, y, z)
            == grid.state(x, y, z) - 1,
{
}

/// Birth: a dead cell with exactly `birth` live neighbours is fully alive in
/// the next generation; with any other number of them it stays dead.
pub proof fn lemma_birth_rule(grid: GridView, x: int, y: int, z: int)
    requires
        grid.wf(),
        grid.in_bounds(x, y, z),
        grid.state(x, y, z) == 0,
    ensures
        grid.neighbour_count(x, y, z) == grid.rules.birth ==> grid.successor().state(x, y, z)
            == grid.rules.full_life,
        grid.neighbour_count(x, y, z) != grid.rules.birth ==> grid.successor().state(x, y, z) == 0,
{
}

/// Decay: a decaying cell loses exactly one step of life in the next
/// generation, whatever its neighbours are; from state one it is dead.
pub proof fn lemma_decay_rule(grid: GridView, x: int, y: int, z: int)
    requires
        grid.in_bounds(x, y, z),
        0 < grid.state(x, y, z) < grid.rules.full_life,
    ensures
        grid.successor().state(x, y, z) == grid.state(x, y, z) - 1,
        grid.state(x, y, z) == 1 ==> grid.successor().state(x, y, z) == 0,
{
}

/// Whether `(i, j, k)` is `(x, y, z)` or one of the twenty-six positions
/// around it.
pub open spec fn around(i: int, j: int, k: int, x: int, y: int, z: int) -> bool {
    x - 1 <= i <= x + 1 && y - 1 <= j <= y + 1 && z - 1 <= k <= z + 1
}

/// A cell steps by its neighbourhood alone: grids of one extent and rule
/// that agree on the state of a cell and on the states of the positions
/// around it agree on its next state.
pub proof fn lemma_next_state_local(a: GridView, b: GridView, x: int, y: int, z: int)
    requires
        a.width == b.width,
        a.height == b.height,
        a.depth == b.depth,
        a.rules == b.rules,
        forall|i: int, j: int, k: int|
            around(i, j, k, x, y, z) ==> #[trigger] a.state(i, j, k) == b.state(i, j, k),
    ensures
        a.neighbour_count(x, y, z) == b.neighbour_count(x, y, z),
        a.next_state(x, y, z) == b.next_state(x, y, z),
{
    assert forall|i: int, j: int, k: int| around(i, j, k, x, y, z) implies #[trigger] a.occupancy(
        i,
        j,
        k,
    ) == b.occupancy(i, j, k) by {}
    assert forall|j: int, k: int|
        y - 1 <= j <= y + 1 && z - 1 <= k <= z + 1 implies #[trigger] a.row_occupancy(x, j, k)
        == b.row_occupancy(x, j, k) by {}
    assert forall|k: int| z - 1 <= k <= z + 1 implies #[trigger] a.plane_occupancy(x, y, k)
        == b.plane_occupancy(x, y, k) by {}
}

/// Advances the grid by one generation.
///
/// The update is simultaneous: the live neighbours of every cell are counted
/// in the grid as it was on entry.
pub fn tick(grid: &mut Grid)
    requires
        old(grid).wf(),
    ensures
        final(grid).wf(),
        final(grid)@ == old(grid)@.successor(),
{
    let before = grid.snapshot();
    let width: usize = grid.width();
    let height: usize = grid.height();
    let depth: usize = grid.depth();
    let rules = grid.rules();
    let mut x: usize = 0;
    while x < width
        invariant
            x <= width == before@.width,
            height == before@.height,
            depth == before@.depth,
            rules == before@.rules,
            before.wf(),
            grid.wf(),
            before@.rewritten_before(grid@, before@.next_states(), x as int, 0, 0),
        decreases width - x,
    {
        let mut y: usize = 0;
        while y < height
            invariant
                x < width == before@.width,
                y <= height == before@.height,
                depth == before@.depth,
                rules == before@.rules,
                before.wf(),
                grid.wf(),
                before@.rewritten_before(grid@, before@.next_states(), x as int, y as int, 0),
            decreases height - y,
        {
            let mut z: usize = 0;
            while z < depth
                invariant
                    x < width == before@.width,
                    y < height == before@.height,
                    z <= depth == before@.depth,
                    rules == before@.rules,
                    before.wf(),
                    grid.wf(),
                    before@.rewritten_before(
                        grid@,
                        before@.next_states(),
                        x as int,
                        y as int,
                        z as int,
                    ),
                decreases depth - z,
            {
                let ghost previous = grid@;
                let state: u32 = before.get_cell_state(x, y, z);
                if state == rules.full_life {
                    if before.get_neighbour_count(x, y, z) != rules.survive {
                        grid.kill_cell(x, y, z);
                    }
                } else if state == 0 {
                    if before.get_neighbour_count(x, y, z) == rules.birth {
                        grid.enable_cell(x, y, z);
                    }
                } else {
                    grid.set_cell_state(x, y, z, state - 1);
                }
                proof {
                    before@.lemma_rewritten_next(
                        previous,
                        grid@,
                        before@.next_states(),
                        x as int,
                        y as int,
                        z as int,
                    );
                }
                z += 1;
            }
            y += 1;
        }
        x += 1;
    }
    proof {
        before@.lemma_rewritten_all(grid@, before@.next_states());
    }
}

} // verus!
