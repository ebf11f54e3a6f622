//! What holds of every surface: which faces it has, in which order, how each
//! face lies and turns, and how many faces one cell or two cells show.

use crate::grid::GridView;
use crate::layout::walked_before;
use crate::mesh::{face_indices, face_vertices, Direction, Face};
use vstd::prelude::*;

verus! {

impl Direction {
    /// The side across the cell from this one.
    pub open spec fn opposite(self) -> Direction {
        match self {
            Direction::NegZ => Direction::PosZ,
            Direction::NegY => Direction::PosY,
            Direction::NegX => Direction::PosX,
            Direction::PosX => Direction::NegX,
            Direction::PosY => Direction::NegY,
            Direction::PosZ => Direction::NegZ,
        }
    }
}

impl Face {
    /// Whether this face comes before `other` in a surface: its cell is
    /// walked earlier, or it is an earlier side of the same cell.
    pub open spec fn precedes(self, other: Face) -> bool {
        ||| walked_before(self.x, self.y, self.z, other.x, other.y, other.z)
        ||| (self.x == other.x && self.y == other.y && self.z == other.z && self.dir.rank()
            < other.dir.rank())
    }
}

/// Whether every face of the sequence comes before all that follow it.
pub open spec fn ordered(faces: Seq<Face>) -> bool {
    forall|i: int, j: int| 0 <= i < j < faces.len() ==> faces[i].precedes(faces[j])
}

/// The six sides of the cell `(x, y, z)`.
pub open spec fn sides(x: int, y: int, z: int) -> Set<Face> {
    set![
        Face { x, y, z, dir: Direction::NegZ },
        Face { x, y, z, dir: Direction::NegY },
        Face { x, y, z, dir: Direction::NegX },
        Face { x, y, z, dir: Direction::PosX },
        Face { x, y, z, dir: Direction::PosY },
        Face { x, y, z, dir: Direction::PosZ },
    ]
}

/// All six sides of the cell `(x, y, z)`, in the order of testing.
pub open spec fn cube(x: int, y: int, z: int) -> Seq<Face> {
    seq![
        Face { x, y, z, dir: Direction::NegZ },
        Face { x, y, z, dir: Direction::NegY },
        Face { x, y, z, dir: Direction::NegX },
        Face { x, y, z, dir: Direction::PosX },
        Face { x, y, z, dir: Direction::PosY },
        Face { x, y, z, dir: Direction::PosZ },
    ]
}

impl GridView {
    /// Whether the cells of the grid that count as alive are those of `cells`.
    pub open spec fn only_alive(self, cells: Set<(int, int, int)>) -> bool {
        forall|x: int, y: int, z: int|
            self.in_bounds(x, y, z) ==> (#[trigger] self.alive(x, y, z) <==> cells.contains(
                (x, y, z),
            ))
    }
}

/// The difference of two points.
pub open spec fn minus(p: (int, int, int), q: (int, int, int)) -> (int, int, int) {
    (p.0 - q.0, p.1 - q.1, p.2 - q.2)
}

/// The cross product of two vectors.
pub open spec fn cross(u: (int, int, int), v: (int, int, int)) -> (int, int, int) {
    (u.1 * v.2 - u.2 * v.1, u.2 * v.0 - u.0 * v.2, u.0 * v.1 - u.1 * v.0)
}

/// Two ordered sequences, the first of which comes before the second face
/// by face, join to an ordered sequence.
proof fn lemma_ordered_concat(a: Seq<Face>, b: Seq<Face>)
    requires
        ordered(a),
        ordered(b),
        forall|i: int, j: int| 0 <= i < a.len() && 0 <= j < b.len() ==> a[i].precedes(b[j]),
    ensures
        ordered(a + b),
{
}

/// Whether the faces are sides of the cell `(x, y, z)` of a rank below `rank`.
spec fn sides_below(faces: Seq<Face>, x: int, y: int, z: int, rank: int) -> bool {
    forall|i: int|
        0 <= i < faces.len() ==> {
            &&& (#[trigger] faces[i]).x == x
            &&& faces[i].y == y
            &&& faces[i].z == z
            &&& faces[i].dir.rank() < rank
        }
}

impl GridView {
    /// Adding the next side of a cell, if it is exposed, to earlier sides of
    /// the cell keeps them ordered.
    proof fn lemma_append_side(self, found: Seq<Face>, x: int, y: int, z: int, dir: Direction)
        requires
            ordered(found),
            sides_below(found, x, y, z, dir.rank()),
        ensures
            ordered(found + self.face_if_exposed(x, y, z, dir)),
            sides_below(found + self.face_if_exposed(x, y, z, dir), x, y, z, dir.rank() + 1),
    {
        lemma_ordered_concat(found, self.face_if_exposed(x, y, z, dir));
    }

    /// The exposed sides of a cell are ordered, and a face is among them if
    /// and only if it is an exposed side of the cell.
    proof fn lemma_cell_faces(self, x: int, y: int, z: int)
        ensures
            ordered(self.cell_faces(x, y, z)),
            forall|f: Face| #[trigger]
                self.cell_faces(x, y, z).contains(f) <==> (f.x == x && f.y == y && f.z == z
                    && self.exposed(x, y, z, f.dir)),
    {
        broadcast use vstd::seq_lib::group_seq_properties;

        let f0 = self.face_if_exposed(x, y, z, Direction::NegZ);
        let f1 = f0 + self.face_if_exposed(x, y, z, Direction::NegY);
        let f2 = f1 + self.face_if_exposed(x, y, z, Direction::NegX);
        let f3 = f2 + self.face_if_exposed(x, y, z, Direction::PosX);
        let f4 = f3 + self.face_if_exposed(x, y, z, Direction::PosY);
        self.lemma_append_side(Seq::empty(), x, y, z, Direction::NegZ);
        self.lemma_append_side(f0, x, y, z, Direction::NegY);
        self.lemma_append_side(f1, x, y, z, Direction::NegX);
        self.lemma_append_side(f2, x, y, z, Direction::PosX);
        self.lemma_append_side(f3, x, y, z, Direction::PosY);
        self.lemma_append_side(f4, x, y, z, Direction::PosZ);
        assert forall|f: Face| #[trigger]
            self.cell_faces(x, y, z).contains(f) <==> (f.x == x && f.y == y && f.z == z
                && self.exposed(x, y, z, f.dir)) by {
            self.lemma_side_contains(x, y, z, Direction::NegZ, f);
            self.lemma_side_contains(x, y, z, Direction::NegY, f);
            self.lemma_side_contains(x, y, z, Direction::NegX, f);
            self.lemma_side_contains(x, y, z, Direction::PosX, f);
            self.lemma_side_contains(x, y, z, Direction::PosY, f);
            self.lemma_side_contains(x, y, z, Direction::PosZ, f);
        }
    }

    /// A face is the side `dir` of a cell, taken if exposed, if and only if
    /// it is that side and the side is exposed.
    proof fn lemma_side_contains(self, x: int, y: int, z: int, dir: Direction, f: Face)
        ensures
            self.face_if_exposed(x, y, z, dir).contains(f) <==> (f == (Face { x, y, z, dir })
                && self.exposed(x, y, z, dir)),
    {
        broadcast use vstd::seq_lib::group_seq_properties;

    }

    /// The faces of a row are ordered, and a face is among them if and only
    /// if it is an exposed side of a live cell of the row.
    proof fn lemma_row_faces(self, x: int, y: int, k: int)
        requires
            0 <= k,
        ensures
            ordered(self.row_faces(x, y, k)),
            forall|f: Face| #[trigger]
                self.row_faces(x, y, k).contains(f) <==> (f.x == x && f.y == y && 0 <= f.z < k
                    && self.alive(x, y, f.z) && self.exposed(x, y, f.z, f.dir)),
        decreases k,
    {
        broadcast use vstd::seq_lib::group_seq_properties;

        if k > 0 {
            let a = self.row_faces(x, y, k - 1);
            let b = self.live_cell_faces(x, y, k - 1);
            self.lemma_row_faces(x, y, k - 1);
            self.lemma_cell_faces(x, y, k - 1);
            assert forall|m: int, n: int|
                0 <= m < a.len() && 0 <= n < b.len() implies a[m].precedes(b[n]) by {
                assert(a.contains(a[m]));
            }
            lemma_ordered_concat(a, b);
        }
    }

    /// The faces of a slab are ordered, and a face is among them if and only
    /// if it is an exposed side of a live cell of the slab.
    proof fn lemma_slab_faces(self, x: int, j: int)
        requires
            0 <= j,
        ensures
            ordered(self.slab_faces(x, j)),
            forall|f: Face| #[trigger]
                self.slab_faces(x, j).contains(f) <==> (f.x == x && 0 <= f.y < j && 0 <= f.z
                    < self.depth && self.alive(x, f.y, f.z) && self.exposed(x, f.y, f.z, f.dir)),
        decreases j,
    {
        broadcast use vstd::seq_lib::group_seq_properties;

        if j > 0 {
            let a = self.slab_faces(x, j - 1);
            let b = self.row_faces(x, j - 1, self.depth as int);
            self.lemma_slab_faces(x, j - 1);
            self.lemma_row_faces(x, j - 1, self.depth as int);
            assert forall|m: int, n: int|
                0 <= m < a.len() && 0 <= n < b.len() implies a[m].precedes(b[n]) by {
                assert(a.contains(a[m]));
                assert(b.contains(b[n]));
            }
            lemma_ordered_concat(a, b);
        }
    }

    /// The faces of the first slabs are ordered, and a face is among them if
    /// and only if it is an exposed side of a live cell of these slabs.
    proof fn lemma_faces_below(self, i: int)
        requires
            0 <= i,
        ensures
            ordered(self.faces_below(i)),
            forall|f: Face| #[trigger]
                self.faces_below(i).contains(f) <==> (0 <= f.x < i && 0 <= f.y < self.height && 0
                    <= f.z < self.depth && self.alive(f.x, f.y, f.z) && self.exposed(
                    f.x,
                    f.y,
                    f.z,
                    f.dir,
                )),
        decreases i,
    {
        broadcast use vstd::seq_lib::group_seq_properties;

        if i > 0 {
            let a = self.faces_below(i - 1);
            let b = self.slab_faces(i - 1, self.height as int);
            self.lemma_faces_below(i - 1);
            self.lemma_slab_faces(i - 1, self.height as int);
            assert forall|m: int, n: int|
                0 <= m < a.len() && 0 <= n < b.len() implies a[m].precedes(b[n]) by {
                assert(a.contains(a[m]));
                assert(b.contains(b[n]));
            }
            lemma_ordered_concat(a, b);
        }
    }
}

/// Face culling: a face belongs to the surface if and only if it is a side
/// of a cell of the grid that counts as alive, and the neighbour on that
/// side lies outside the grid or does not count as alive.
pub proof fn lemma_face_emitted_iff(grid: GridView, f: Face)
    ensures
        grid.faces().contains(f) <==> (grid.occupied(f.x, f.y, f.z) && grid.exposed(
            f.x,
            f.y,
            f.z,
            f.dir,
        )),
{
    grid.lemma_faces_below(grid.width as int);
}

/// The faces of a surface stand in the order of the walk: cell after cell
/// with `x` outermost and `z` innermost, and side after side within a cell.
pub proof fn lemma_faces_ordered(grid: GridView)
    ensures
        ordered(grid.faces()),
{
    grid.lemma_faces_below(grid.width as int);
}

/// No face occurs twice in a surface.
pub proof fn lemma_faces_distinct(grid: GridView)
    ensures
        grid.faces().no_duplicates(),
{
    lemma_faces_ordered(grid);
    let s = grid.faces();
    assert forall|i: int, j: int| 0 <= i < s.len() && 0 <= j < s.len() && i != j implies s[i]
        != s[j] by {
        if i < j {
            assert(s[i].precedes(s[j]));
        } else {
            assert(s[j].precedes(s[i]));
        }
    }
}

/// The order of faces is a strict one, and of two different faces one comes
/// before the other.
proof fn lemma_precedes_strict(a: Face, b: Face, c: Face)
    ensures
        !a.precedes(a),
        a.precedes(b) && b.precedes(c) ==> a.precedes(c),
        a.precedes(b) || b.precedes(a) || a == b,
{
}

/// An ordered sequence of faces is determined by the faces it holds.
pub proof fn lemma_ordered_unique(a: Seq<Face>, b: Seq<Face>)
    requires
        ordered(a),
        ordered(b),
        forall|f: Face| a.contains(f) <==> b.contains(f),
    ensures
        a == b,
    decreases a.len(),
{
    if a.len() == 0 {
        if b.len() > 0 {
            assert(b.contains(b[0]));
        }
    } else {
        assert(a.contains(a[0]));
        let j = choose|j: int| 0 <= j < b.len() && b[j] == a[0];
        assert(b.contains(b[0]));
        let i = choose|i: int| 0 <= i < a.len() && a[i] == b[0];
        assert(a[0] == b[0]) by {
            lemma_precedes_strict(a[0], b[0], a[0]);
        }
        let a_rest = a.drop_first();
        let b_rest = b.drop_first();
        assert forall|f: Face| a_rest.contains(f) <==> b_rest.contains(f) by {
            lemma_precedes_strict(a[0], f, a[0]);
            if a_rest.contains(f) {
                let m = choose|m: int| 0 <= m < a_rest.len() && a_rest[m] == f;
                assert(a.contains(f));
                let n = choose|n: int| 0 <= n < b.len() && b[n] == f;
                assert(b_rest[n - 1] == f);
            }
            if b_rest.contains(f) {
                let m = choose|m: int| 0 <= m < b_rest.len() && b_rest[m] == f;
                assert(b.contains(f));
                let n = choose|n: int| 0 <= n < a.len() && a[n] == f;
                assert(a_rest[n - 1] == f);
            }
        }
        lemma_ordered_unique(a_rest, b_rest);
        assert(b =~= seq![b[0]] + b_rest);
    }
}

/// The surface is the one sequence that holds exactly the exposed sides of
/// the live cells of the grid, in the order of the walk.
pub proof fn lemma_surface_unique(grid: GridView, faces: Seq<Face>)
    requires
        ordered(faces),
        forall|f: Face|
            faces.contains(f) <==> (grid.occupied(f.x, f.y, f.z) && grid.exposed(
                f.x,
                f.y,
                f.z,
                f.dir,
            )),
    ensures
        faces == grid.faces(),
{
    lemma_faces_ordered(grid);
    assert forall|f: Face| faces.contains(f) <==> grid.faces().contains(f) by {
        lemma_face_emitted_iff(grid, f);
    }
    lemma_ordered_unique(faces, grid.faces());
}

/// Every vertex of the surface of a grid lies in the box that the grid
/// fills, from the origin to `(width, height, depth)`.
pub proof fn lemma_surface_in_box(grid: GridView, i: int, k: int)
    requires
        0 <= i < grid.faces().len(),
        0 <= k < 4,
    ensures
        0 <= grid.faces()[i].corner(k).0 <= grid.width,
        0 <= grid.faces()[i].corner(k).1 <= grid.height,
        0 <= grid.faces()[i].corner(k).2 <= grid.depth,
{
    let f = grid.faces()[i];
    lemma_face_emitted_iff(grid, f);
    lemma_face_on_side(f, k);
}

/// The buffers of a surface hold four vertices and six indices for each of
/// its faces, and every index refers to a vertex of the face it belongs to.
pub proof fn lemma_buffers_match(faces: Seq<Face>, first: int)
    ensures
        face_vertices(faces).len() == 4 * faces.len(),
        face_indices(faces, first).len() == 6 * faces.len(),
        forall|i: int|
            0 <= i < 6 * faces.len() ==> 4 * (first + i / 6) <= #[trigger] face_indices(
                faces,
                first,
            )[i] < 4 * (first + i / 6) + 4,
{
}

/// Every corner of a face is a corner of the unit cube of its cell and lies
/// on the side of the cube that the face is named after.
pub proof fn lemma_face_on_side(f: Face, k: int)
    requires
        0 <= k < 4,
    ensures
        f.x <= f.corner(k).0 <= f.x + 1,
        f.y <= f.corner(k).1 <= f.y + 1,
        f.z <= f.corner(k).2 <= f.z + 1,
        f.dir == Direction::NegX ==> f.corner(k).0 == f.x,
        f.dir == Direction::PosX ==> f.corner(k).0 == f.x + 1,
        f.dir == Direction::NegY ==> f.corner(k).1 == f.y,
        f.dir == Direction::PosY ==> f.corner(k).1 == f.y + 1,
        f.dir == Direction::NegZ ==> f.corner(k).2 == f.z,
        f.dir == Direction::PosZ ==> f.corner(k).2 == f.z + 1,
{
}

/// Both triangles of a face turn the same way: taken in the order of their
/// indices, their corners go counter-clockwise when seen from outside the
/// cell, so that the normal by the right-hand rule is the step to the
/// neighbour that the face looks at.
pub proof fn lemma_wound_outward(f: Face)
    by (nonlinear_arith)
    ensures
        cross(minus(f.corner(1), f.corner(0)), minus(f.corner(2), f.corner(0))) == f.dir.offset(),
        cross(minus(f.corner(3), f.corner(2)), minus(f.corner(0), f.corner(2))) == f.dir.offset(),
{
}

/// The six sides of a cell are six.
proof fn lemma_sides_len(x: int, y: int, z: int)
    ensures
        sides(x, y, z).finite(),
        sides(x, y, z).len() == 6,
        forall|f: Face| #[trigger]
            sides(x, y, z).contains(f) <==> (f.x == x && f.y == y && f.z == z),
{
    broadcast use vstd::set::group_set_axioms;
}

/// A single live cell shows all its six sides: the surface of a grid in
/// which exactly one cell counts as alive is the whole cube of that cell,
/// 6 faces in the order of testing, hence 24 vertices and 36 indices.
pub proof fn lemma_lone_cell_surface(grid: GridView, x: int, y: int, z: int)
    requires
        grid.in_bounds(x, y, z),
        grid.only_alive(set![(x, y, z)]),
    ensures
        grid.faces() == cube(x, y, z),
        grid.faces().len() == 6,
        face_vertices(grid.faces()).len() == 24,
        face_indices(grid.faces(), 0).len() == 36,
{
    lemma_surface_unique(grid, cube(x, y, z));
}

/// Two live cells side by side hide the side they share from each other:
/// the surface of a grid in which exactly two cells count as alive, one the
/// neighbour of the other on its side `dir`, has exactly 10 faces, five
/// sides of each cell.
pub proof fn lemma_adjacent_pair_surface(grid: GridView, x: int, y: int, z: int, dir: Direction)
    requires
        grid.in_bounds(x, y, z),
        grid.in_bounds(dir.neighbour(x, y, z).0, dir.neighbour(x, y, z).1, dir.neighbour(x, y, z).2),
        grid.only_alive(set![(x, y, z), dir.neighbour(x, y, z)]),
    ensures
        grid.faces().len() == 10,
        forall|f: Face|
            grid.faces().contains(f) <==> {
                ||| (f.x, f.y, f.z) == (x, y, z) && f.dir != dir
                ||| (f.x, f.y, f.z) == dir.neighbour(x, y, z) && f.dir != dir.opposite()
            },
{
    broadcast use vstd::set::group_set_axioms;

    let n = dir.neighbour(x, y, z);
    let here = sides(x, y, z).remove(Face { x, y, z, dir });
    let there = sides(n.0, n.1, n.2).remove(Face { x: n.0, y: n.1, z: n.2, dir: dir.opposite() });
    lemma_sides_len(x, y, z);
    lemma_sides_len(n.0, n.1, n.2);
    vstd::set_lib::lemma_set_disjoint_lens(here, there);
    assert forall|f: Face|
        grid.faces().contains(f) <==> {
            ||| (f.x, f.y, f.z) == (x, y, z) && f.dir != dir
            ||| (f.x, f.y, f.z) == n && f.dir != dir.opposite()
        } by {
        lemma_face_emitted_iff(grid, f);
    }
    assert(grid.faces().to_set() =~= here + there);
    lemma_faces_distinct(grid);
    grid.faces().unique_seq_to_set();
}

} // verus!
