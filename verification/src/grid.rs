//! The grid of cell states, and the count of a cell's live neighbours.

use crate::layout::{
    cell_index, lemma_cell_index_bounds, lemma_cell_index_injective, lemma_extent_le_volume,
    walked_before,
};
use crate::rules::Rules;
use vstd::prelude::*;

verus! {

/// Extent of the default grid along x.
pub const GRID_WIDTH: usize = 20;

/// Extent of the default grid along y.
pub const GRID_HEIGHT: usize = 20;

/// Extent of the default grid along z.
pub const GRID_DEPTH: usize = 20;

/// The most cells a grid can have.
///
/// A cell shows at most six faces and a face takes four vertices, so with
/// this many cells every vertex of a surface has a number that fits in 32
/// bits.
pub const MAX_CELLS: usize = 178_956_970;

/// The mathematical grid: its extent, its rule, and the state of each cell.
pub struct GridView {
    pub width: nat,
    pub height: nat,
    pub depth: nat,
    pub rules: Rules,
    pub cells: Map<(int, int, int), nat>,
}

impl GridView {
    /// Whether `(x, y, z)` is a cell of the grid.
    pub open spec fn in_bounds(self, x: int, y: int, z: int) -> bool {
        &&& 0 <= x < self.width
        &&& 0 <= y < self.height
        &&& 0 <= z < self.depth
    }

    /// The number of cells.
    pub open spec fn volume(self) -> nat {
        self.width * self.height * self.depth
    }

    /// The state of the cell `(x, y, z)`.
    pub open spec fn state(self, x: int, y: int, z: int) -> nat
        recommends
            self.in_bounds(x, y, z),
    {
        self.cells[(x, y, z)]
    }

    /// The grid has a rule, no more cells than `MAX_CELLS`, a state for
    /// each of its cells and for nothing else, and no state above full life.
    pub open spec fn wf(self) -> bool {
        &&& self.rules.valid()
        &&& self.volume() <= MAX_CELLS
        &&& forall|c: (int, int, int)|
            self.cells.dom().contains(c) <==> self.in_bounds(c.0, c.1, c.2)
        &&& forall|x: int, y: int, z: int|
            self.in_bounds(x, y, z) ==> #[trigger] self.state(x, y, z) <= self.rules.full_life
    }

    /// The grid of the given extent and rule in which every cell is dead.
    pub open spec fn dead(width: nat, height: nat, depth: nat, rules: Rules) -> GridView {
        GridView {
            width,
            height,
            depth,
            rules,
            cells: Map::new(
                |c: (int, int, int)| 0 <= c.0 < width && 0 <= c.1 < height && 0 <= c.2 < depth,
                |c: (int, int, int)| 0nat,
            ),
        }
    }

    /// The grid with the state of the cell `(x, y, z)` replaced.
    pub open spec fn with_state(self, x: int, y: int, z: int, state: nat) -> GridView
        recommends
            self.in_bounds(x, y, z),
    {
        GridView { cells: self.cells.insert((x, y, z), state), ..self }
    }

    /// Whether the cell `(x, y, z)` counts as alive.
    pub open spec fn alive(self, x: int, y: int, z: int) -> bool
        recommends
            self.in_bounds(x, y, z),
    {
        self.rules.counts_as_alive(self.state(x, y, z))
    }

    /// Whether `(x, y, z)` is a cell of the grid that counts as alive. What
    /// lies outside the grid is never occupied.
    pub open spec fn occupied(self, x: int, y: int, z: int) -> bool {
        self.in_bounds(x, y, z) && self.alive(x, y, z)
    }

    /// One for an occupied position, zero for any other.
    pub open spec fn occupancy(self, x: int, y: int, z: int) -> nat {
        if self.occupied(x, y, z) {
            1
        } else {
            0
        }
    }

    /// Occupied positions among `(x - 1, y, z)`, `(x, y, z)`, `(x + 1, y, z)`.
    pub open spec fn row_occupancy(self, x: int, y: int, z: int) -> nat {
        self.occupancy(x - 1, y, z) + self.occupancy(x, y, z) + self.occupancy(x + 1, y, z)
    }

    /// Occupied positions among the nine around `(x, y, z)` in its plane of
    /// constant `z`, itself included.
    pub open spec fn plane_occupancy(self, x: int, y: int, z: int) -> nat {
        self.row_occupancy(x, y - 1, z) + self.row_occupancy(x, y, z) + self.row_occupancy(
            x,
            y + 1,
            z,
        )
    }

    /// Occupied positions among the twenty-seven of the block around
    /// `(x, y, z)`, itself included.
    pub open spec fn block_occupancy(self, x: int, y: int, z: int) -> nat {
        self.plane_occupancy(x, y, z - 1) + self.plane_occupancy(x, y, z) + self.plane_occupancy(
            x,
            y,
            z + 1,
        )
    }

    /// The number of live neighbours of the cell `(x, y, z)`: the occupied
    /// positions among the twenty-six that differ from it by at most one in
    /// each coordinate.
    pub open spec fn neighbour_count(self, x: int, y: int, z: int) -> nat {
        (self.block_occupancy(x, y, z) - self.occupancy(x, y, z)) as nat
    }
}

impl GridView {
    /// The grid in which every cell `(x, y, z)` has the state `to(x, y, z)`.
    pub open spec fn rewritten(self, to: spec_fn(int, int, int) -> nat) -> GridView {
        GridView {
            cells: Map::new(
                |c: (int, int, int)| self.in_bounds(c.0, c.1, c.2),
                |c: (int, int, int)| to(c.0, c.1, c.2),
            ),
            ..self
        }
    }

    /// Whether `now` is this grid with the cells that are walked before
    /// `(x, y, z)` rewritten by `to`, and the other cells as they are.
    pub open spec fn rewritten_before(
        self,
        now: GridView,
        to: spec_fn(int, int, int) -> nat,
        x: int,
        y: int,
        z: int,
    ) -> bool {
        &&& now.width == self.width
        &&& now.height == self.height
        &&& now.depth == self.depth
        &&& now.rules == self.rules
        &&& forall|i: int, j: int, k: int|
            self.in_bounds(i, j, k) ==> #[trigger] now.state(i, j, k) == if walked_before(
                i,
                j,
                k,
                x,
                y,
                z,
            ) {
                to(i, j, k)
            } else {
                self.state(i, j, k)
            }
    }

    /// Rewriting the cell `(x, y, z)` where the cells before it are rewritten
    /// leaves the cells before the next cell rewritten.
    pub proof fn lemma_rewritten_next(
        self,
        previous: GridView,
        now: GridView,
        to: spec_fn(int, int, int) -> nat,
        x: int,
        y: int,
        z: int,
    )
        requires
            self.in_bounds(x, y, z),
            self.rewritten_before(previous, to, x, y, z),
            now == previous.with_state(x, y, z, to(x, y, z)) || (now == previous && self.state(
                x,
                y,
                z,
            ) == to(x, y, z)),
        ensures
            self.rewritten_before(now, to, x, y, z + 1),
            z + 1 == self.depth ==> self.rewritten_before(now, to, x, y + 1, 0),
            z + 1 == self.depth && y + 1 == self.height ==> self.rewritten_before(
                now,
                to,
                x + 1,
                0,
                0,
            ),
    {
        assert forall|i: int, j: int, k: int| self.in_bounds(i, j, k) implies #[trigger] now.state(
            i,
            j,
            k,
        ) == if walked_before(i, j, k, x, y, z + 1) {
            to(i, j, k)
        } else {
            self.state(i, j, k)
        } by {
            if (i, j, k) != (x, y, z) {
                assert(now.state(i, j, k) == previous.state(i, j, k));
            }
        }
    }

    /// A well-formed grid that is this grid with the cells before
    /// `(width, 0, 0)` rewritten, which are all, is this grid rewritten.
    pub proof fn lemma_rewritten_all(self, now: GridView, to: spec_fn(int, int, int) -> nat)
        requires
            now.wf(),
            self.rewritten_before(now, to, self.width as int, 0, 0),
        ensures
            now == self.rewritten(to),
    {
        assert(now.cells =~= self.rewritten(to).cells) by {
            assert forall|c: (int, int, int)| now.cells.dom().contains(c) implies now.cells[c]
                == self.rewritten(to).cells[c] by {
                assert(now.state(c.0, c.1, c.2) == to(c.0, c.1, c.2));
            }
        }
    }
}

/// A grid of cell states of fixed extent, with the rule it evolves under.
pub struct Grid {
    width: usize,
    height: usize,
    depth: usize,
    rules: Rules,
    vals: Vec<u32>,
}

impl View for Grid {
    type V = GridView;

    closed spec fn view(&self) -> GridView {
        GridView {
            width: self.width as nat,
            height: self.height as nat,
            depth: self.depth as nat,
            rules: self.rules,
            cells: Map::new(
                |c: (int, int, int)|
                    0 <= c.0 < self.width && 0 <= c.1 < self.height && 0 <= c.2 < self.depth,
                |c: (int, int, int)|
                    self.vals@[cell_index(
                        self.height as nat,
                        self.depth as nat,
                        c.0,
                        c.1,
                        c.2,
                    )] as nat,
            ),
        }
    }
}

impl Grid {
    /// The cells are laid out row-major in `vals`, one state each.
    pub closed spec fn inv(&self) -> bool {
        &&& self.rules.valid()
        &&& self.width * self.height * self.depth <= MAX_CELLS
        &&& self.vals@.len() == self.width * self.height * self.depth
        &&& forall|i: int| 0 <= i < self.vals@.len() ==> self.vals@[i] <= self.rules.full_life
    }

    /// The grid is soundly stored and its view is a well-formed grid.
    pub open spec fn wf(&self) -> bool {
        &&& self.inv()
        &&& self@.wf()
    }

    /// A soundly stored grid has a well-formed view.
    proof fn lemma_inv_view(&self)
        requires
            self.inv(),
        ensures
            self@.wf(),
    {
        let view = self@;
        assert forall|x: int, y: int, z: int| view.in_bounds(x, y, z) implies #[trigger] view.state(
            x,
            y,
            z,
        ) <= view.rules.full_life by {
            lemma_cell_index_bounds(view.width, view.height, view.depth, x, y, z);
        }
    }

    /// Whether a grid of this extent has no more cells than `MAX_CELLS`.
    pub fn fits(width: usize, height: usize, depth: usize) -> (ok: bool)
        ensures
            ok == (width * height * depth <= MAX_CELLS),
    {
        if width == 0 || height == 0 || depth == 0 {
            assert(width * height * depth == 0) by (nonlinear_arith)
                requires
                    width == 0 || height == 0 || depth == 0,
            ;
            return true;
        }
        proof {
            lemma_extent_le_volume(width as nat, height as nat, depth as nat);
        }
        if width > MAX_CELLS || height > MAX_CELLS || depth > MAX_CELLS {
            return false;
        }
        assert(width * height <= MAX_CELLS * MAX_CELLS) by (nonlinear_arith)
            requires
                width <= MAX_CELLS,
                height <= MAX_CELLS,
        ;
        let base: u64 = (width as u64) * (height as u64);
        if base > MAX_CELLS as u64 {
            return false;
        }
        assert(base * depth <= MAX_CELLS * MAX_CELLS) by (nonlinear_arith)
            requires
                base <= MAX_CELLS,
                depth <= MAX_CELLS,
        ;
        base * (depth as u64) <= MAX_CELLS as u64
    }

    /// A grid of the given extent and rule with every cell dead.
    pub fn new(width: usize, height: usize, depth: usize, rules: Rules) -> (grid: Grid)
        requires
            rules.valid(),
            width * height * depth <= MAX_CELLS,
        ensures
            grid.wf(),
            grid@ == GridView::dead(width as nat, height as nat, depth as nat, rules),
    {
        let volume: usize = if width == 0 || height == 0 || depth == 0 {
            assert(width * height * depth == 0) by (nonlinear_arith)
                requires
                    width == 0 || height == 0 || depth == 0,
            ;
            0
        } else {
            proof {
                lemma_extent_le_volume(width as nat, height as nat, depth as nat);
            }
            width * height * depth
        };
        let grid = Grid { width, height, depth, rules, vals: vec![0u32; volume] };
        proof {
            grid.lemma_inv_view();
            let cells = grid@.cells;
            assert(cells =~= GridView::dead(
                width as nat,
                height as nat,
                depth as nat,
                rules,
            ).cells) by {
                assert forall|c: (int, int, int)| cells.dom().contains(c) implies cells[c] == 0 by {
                    lemma_cell_index_bounds(
                        width as nat,
                        height as nat,
                        depth as nat,
                        c.0,
                        c.1,
                        c.2,
                    );
                }
            }
        }
        grid
    }

    /// The extent along x.
    pub fn width(&self) -> (width: usize)
        ensures
            width == self@.width,
    {
        self.width
    }

    /// The extent along y.
    pub fn height(&self) -> (height: usize)
        ensures
            height == self@.height,
    {
        self.height
    }

    /// The extent along z.
    pub fn depth(&self) -> (depth: usize)
        ensures
            depth == self@.depth,
    {
        self.depth
    }

    /// The rule the grid evolves under.
    pub fn rules(&self) -> (rules: Rules)
        ensures
            rules == self@.rules,
    {
        self.rules
    }

    /// A copy of the grid as it is now.
    pub fn snapshot(&self) -> (copy: Grid)
        requires
            self.wf(),
        ensures
            copy.wf(),
            copy@ == self@,
    {
        let copy = Grid {
            width: self.width,
            height: self.height,
            depth: self.depth,
            rules: self.rules,
            vals: self.vals.clone(),
        };
        copy
    }

    /// Position of the cell `(x, y, z)` in `vals`.
    fn index(&self, x: usize, y: usize, z: usize) -> (i: usize)
        requires
            self.inv(),
            self@.in_bounds(x as int, y as int, z as int),
        ensures
            i == cell_index(self.height as nat, self.depth as nat, x as int, y as int, z as int),
            i < self.vals@.len(),
    {
        proof {
            lemma_cell_index_bounds(
                self.width as nat,
                self.height as nat,
                self.depth as nat,
                x as int,
                y as int,
                z as int,
            );
            lemma_extent_le_volume(self.width as nat, self.height as nat, self.depth as nat);
            assert(0 <= x * self.height + y < self.width * self.height) by (nonlinear_arith)
                requires
                    0 <= x < self.width,
                    0 <= y < self.height,
            ;
        }
        (x * self.height + y) * self.depth + z
    }

    /// The state of the cell `(x, y, z)`.
    pub fn get_cell_state(&self, x: usize, y: usize, z: usize) -> (state: u32)
        requires
            self.wf(),
            self@.in_bounds(x as int, y as int, z as int),
        ensures
            state == self@.state(x as int, y as int, z as int),
    {
        self.vals[self.index(x, y, z)]
    }

    /// Overwrites the state of the cell `(x, y, z)`.
    pub fn set_cell_state(&mut self, x: usize, y: usize, z: usize, val: u32)
        requires
            old(self).wf(),
            old(self)@.in_bounds(x as int, y as int, z as int),
            val <= old(self)@.rules.full_life,
        ensures
            final(self).wf(),
            final(self)@ == old(self)@.with_state(x as int, y as int, z as int, val as nat),
    {
        let i: usize = self.index(x, y, z);
        self.vals[i] = val;
        proof {
            self.lemma_inv_view();
            let cells = self@.cells;
            let expected = old(self)@.with_state(x as int, y as int, z as int, val as nat).cells;
            assert(cells =~= expected) by {
                assert forall|c: (int, int, int)| cells.dom().contains(c) implies cells[c]
                    == expected[c] by {
                    lemma_cell_index_bounds(
                        self.width as nat,
                        self.height as nat,
                        self.depth as nat,
                        c.0,
                        c.1,
                        c.2,
                    );
                    if c != (x as int, y as int, z as int) {
                        if cell_index(self.height as nat, self.depth as nat, c.0, c.1, c.2) == i {
                            lemma_cell_index_injective(
                                self.height as nat,
                                self.depth as nat,
                                c.0,
                                c.1,
                                c.2,
                                x as int,
                                y as int,
                                z as int,
                            );
                        }
                    }
                }
            }
        }
    }

    /// Brings the cell `(x, y, z)` to full life.
    pub fn enable_cell(&mut self, x: usize, y: usize, z: usize)
        requires
            old(self).wf(),
            old(self)@.in_bounds(x as int, y as int, z as int),
        ensures
            final(self).wf(),
            final(self)@ == old(self)@.with_state(
                x as int,
                y as int,
                z as int,
                old(self)@.rules.full_life as nat,
            ),
    {
        let full_life: u32 = self.rules.full_life;
        self.set_cell_state(x, y, z, full_life);
    }

    /// Takes one step of life from the cell `(x, y, z)`, which is not dead.
    pub fn kill_cell(&mut self, x: usize, y: usize, z: usize)
        requires
            old(self).wf(),
            old(self)@.in_bounds(x as int, y as int, z as int),
            old(self)@.state(x as int, y as int, z as int) > 0,
        ensures
            final(self).wf(),
            final(self)@ == old(self)@.with_state(
                x as int,
                y as int,
                z as int,
                (old(self)@.state(x as int, y as int, z as int) - 1) as nat,
            ),
    {
        let state: u32 = self.get_cell_state(x, y, z);
        self.set_cell_state(x, y, z, state - 1);
    }

    /// Whether the cell `(x, y, z)` counts as alive.
    pub fn is_cell_alive(&self, x: usize, y: usize, z: usize) -> (alive: bool)
        requires
            self.wf(),
            self@.in_bounds(x as int, y as int, z as int),
        ensures
            alive == self@.alive(x as int, y as int, z as int),
            alive == if self@.rules.decaying_counts {
                self@.state(x as int, y as int, z as int) != 0
            } else {
                self@.state(x as int, y as int, z as int) == self@.rules.full_life
            },
    {
        self.rules.is_alive(self.get_cell_state(x, y, z))
    }

    /// Counts the live cells among `(x - 1, y, z)`, `(x, y, z)` and
    /// `(x + 1, y, z)`, as far as they lie inside the grid.
    fn row_count(&self, x: usize, y: usize, z: usize) -> (count: u32)
        requires
            self.wf(),
            self@.in_bounds(x as int, y as int, z as int),
        ensures
            count == self@.row_occupancy(x as int, y as int, z as int),
            count <= 3,
    {
        let mut count: u32 = 0;
        if x > 0 && self.is_cell_alive(x - 1, y, z) {
            count += 1;
        }
        if self.is_cell_alive(x, y, z) {
            count += 1;
        }
        if x + 1 < self.width && self.is_cell_alive(x + 1, y, z) {
            count += 1;
        }
        count
    }

    /// Counts the live cells among the nine around `(x, y, z)` in its plane
    /// of constant `z`, as far as they lie inside the grid.
    fn plane_count(&self, x: usize, y: usize, z: usize) -> (count: u32)
        requires
            self.wf(),
            self@.in_bounds(x as int, y as int, z as int),
        ensures
            count == self@.plane_occupancy(x as int, y as int, z as int),
            count <= 9,
    {
        let mut count: u32 = 0;
        if y > 0 {
            count += self.row_count(x, y - 1, z);
        }
        count += self.row_count(x, y, z);
        if y + 1 < self.height {
            count += self.row_count(x, y + 1, z);
        }
        count
    }

    /// Counts the live neighbours of the cell `(x, y, z)`: the cells that
    /// count as alive among the up to twenty-six around it. Positions
    /// outside the grid hold no cell and add nothing.
    pub fn get_neighbour_count(&self, x: usize, y: usize, z: usize) -> (count: u32)
        requires
            self.wf(),
            self@.in_bounds(x as int, y as int, z as int),
        ensures
            count == self@.neighbour_count(x as int, y as int, z as int),
            count <= 26,
    {
        let mut count: u32 = 0;
        if z > 0 {
            count += self.plane_count(x, y, z - 1);
        }
        count += self.plane_count(x, y, z);
        if z + 1 < self.depth {
            count += self.plane_count(x, y, z + 1);
        }
        if self.is_cell_alive(x, y, z) {
            count -= 1;
        }
        count
    }
}

impl Default for Grid {
    /// The default grid: twenty cells along each axis, the default rule,
    /// every cell dead.
    fn default() -> (grid: Grid)
        ensures
            grid.wf(),
            grid@ == GridView::dead(
                GRID_WIDTH as nat,
                GRID_HEIGHT as nat,
                GRID_DEPTH as nat,
                Rules::standard(),
            ),
    {
        Grid::new(GRID_WIDTH, GRID_HEIGHT, GRID_DEPTH, Rules::default())
    }
}

} // verus!
