//! The surface of the live cells: one square face for every side of a live
//! cell that no other live cell covers, as a vertex buffer and an index
//! buffer of triangles.

use crate::grid::{Grid, GridView};
use crate::layout::{cell_index, lemma_cell_index_bounds, lemma_extent_le_volume};
use vstd::prelude::*;

verus! {

/// The most faces a surface can have: four times this number still fits in
/// 32 bits.
pub const MAX_FACES: u32 = 0x4000_0000;

/// The six sides of a cell, in the order in which they are tested.
#[derive(Clone, Copy, Debug, PartialEq, Eq, Structural)]
pub enum Direction {
    NegZ,
    NegY,
    NegX,
    PosX,
    PosY,
    PosZ,
}

impl Direction {
    /// The step from a cell to its neighbour on this side.
    pub open spec fn offset(self) -> (int, int, int) {
        match self {
            Direction::NegZ => (0, 0, -1),
            Direction::NegY => (0, -1, 0),
            Direction::NegX => (-1, 0, 0),
            Direction::PosX => (1, 0, 0),
            Direction::PosY => (0, 1, 0),
            Direction::PosZ => (0, 0, 1),
        }
    }

    /// The neighbour of the cell `(x, y, z)` on this side.
    pub open spec fn neighbour(self, x: int, y: int, z: int) -> (int, int, int) {
        let o = self.offset();
        (x + o.0, y + o.1, z + o.2)
    }

    /// The place of the side in the order of testing.
    pub open spec fn rank(self) -> int {
        match self {
            Direction::NegZ => 0,
            Direction::NegY => 1,
            Direction::NegX => 2,
            Direction::PosX => 3,
            Direction::PosY => 4,
            Direction::PosZ => 5,
        }
    }

    /// The four corners of this side of the unit cube at the origin, in the
    /// order in which they enter the vertex buffer.
    pub open spec fn corner_offsets(self) -> Seq<(int, int, int)> {
        match self {
            Direction::NegZ => seq![(0, 1, 0), (1, 1, 0), (1, 0, 0), (0, 0, 0)],
            Direction::NegY => seq![(0, 0, 0), (1, 0, 0), (1, 0, 1), (0, 0, 1)],
            Direction::NegX => seq![(0, 0, 1), (0, 1, 1), (0, 1, 0), (0, 0, 0)],
            Direction::PosX => seq![(1, 0, 0), (1, 1, 0), (1, 1, 1), (1, 0, 1)],
            Direction::PosY => seq![(0, 1, 1), (1, 1, 1), (1, 1, 0), (0, 1, 0)],
            Direction::PosZ => seq![(0, 0, 1), (1, 0, 1), (1, 1, 1), (0, 1, 1)],
        }
    }
}

/// One side of the cell `(x, y, z)`, which fills the unit cube from
/// `(x, y, z)` to `(x + 1, y + 1, z + 1)`.
pub struct Face {
    pub x: int,
    pub y: int,
    pub z: int,
    pub dir: Direction,
}

impl Face {
    /// The `k`-th of the four corners of the face.
    pub open spec fn corner(self, k: int) -> (int, int, int)
        recommends
            0 <= k < 4,
    {
        let o = self.dir.corner_offsets()[k];
        (self.x + o.0, self.y + o.1, self.z + o.2)
    }
}

/// The corner of a face that the `k`-th of its six indices refers to: the
/// two triangles are the corners 0, 1, 2 and the corners 2, 3, 0.
pub open spec fn triangle_corner(k: int) -> int
    recommends
        0 <= k < 6,
{
    seq![0int, 1, 2, 2, 3, 0][k]
}

/// The vertex buffer of a sequence of faces: the four corners of each face,
/// face after face. No vertex is shared between faces.
pub open spec fn face_vertices(faces: Seq<Face>) -> Seq<(int, int, int)> {
    Seq::new(4 * faces.len(), |i: int| faces[i / 4].corner(i % 4))
}

/// The index buffer of a sequence of faces of which the first is face number
/// `first` of the vertex buffer: six indices for each face, which refer to
/// its own four vertices.
pub open spec fn face_indices(faces: Seq<Face>, first: int) -> Seq<int> {
    Seq::new(6 * faces.len(), |i: int| 4 * (first + i / 6) + triangle_corner(i % 6))
}

/// The point that a vertex stands for.
pub open spec fn position(vertex: [u32; 3]) -> (int, int, int) {
    (vertex[0] as int, vertex[1] as int, vertex[2] as int)
}

/// The points of a vertex buffer.
pub open spec fn positions(vertices: Seq<[u32; 3]>) -> Seq<(int, int, int)> {
    vertices.map_values(|vertex: [u32; 3]| position(vertex))
}

/// The numbers of an index buffer.
pub open spec fn numbers(indices: Seq<u32>) -> Seq<int> {
    indices.map_values(|index: u32| index as int)
}

impl GridView {
    /// Whether nothing covers the side `dir` of the cell `(x, y, z)`: the
    /// neighbour on that side lies outside the grid or does not count as
    /// alive.
    pub open spec fn exposed(self, x: int, y: int, z: int, dir: Direction) -> bool {
        let n = dir.neighbour(x, y, z);
        !self.occupied(n.0, n.1, n.2)
    }

    /// The side `dir` of the cell `(x, y, z)` if it is exposed, else nothing.
    pub open spec fn face_if_exposed(self, x: int, y: int, z: int, dir: Direction) -> Seq<Face> {
        if self.exposed(x, y, z, dir) {
            seq![Face { x, y, z, dir }]
        } else {
            Seq::empty()
        }
    }

    /// The exposed sides of the cell `(x, y, z)`, in the order of testing.
    pub open spec fn cell_faces(self, x: int, y: int, z: int) -> Seq<Face> {
        self.face_if_exposed(x, y, z, Direction::NegZ) + self.face_if_exposed(
            x,
            y,
            z,
            Direction::NegY,
        ) + self.face_if_exposed(x, y, z, Direction::NegX) + self.face_if_exposed(
            x,
            y,
            z,
            Direction::PosX,
        ) + self.face_if_exposed(x, y, z, Direction::PosY) + self.face_if_exposed(
            x,
            y,
            z,
            Direction::PosZ,
        )
    }

    /// The faces that the cell `(x, y, z)` adds to the surface: its exposed
    /// sides if it counts as alive, else nothing.
    pub open spec fn live_cell_faces(self, x: int, y: int, z: int) -> Seq<Face> {
        if self.alive(x, y, z) {
            self.cell_faces(x, y, z)
        } else {
            Seq::empty()
        }
    }

    /// The faces of the cells `(x, y, 0)` to `(x, y, k - 1)`.
    pub open spec fn row_faces(self, x: int, y: int, k: int) -> Seq<Face>
        decreases k,
    {
        if k <= 0 {
            Seq::empty()
        } else {
            self.row_faces(x, y, k - 1) + self.live_cell_faces(x, y, k - 1)
        }
    }

    /// The faces of the rows `(x, 0)` to `(x, j - 1)`.
    pub open spec fn slab_faces(self, x: int, j: int) -> Seq<Face>
        decreases j,
    {
        if j <= 0 {
            Seq::empty()
        } else {
            self.slab_faces(x, j - 1) + self.row_faces(x, j - 1, self.depth as int)
        }
    }

    /// The faces of the slabs `0` to `i - 1`.
    pub open spec fn faces_below(self, i: int) -> Seq<Face>
        decreases i,
    {
        if i <= 0 {
            Seq::empty()
        } else {
            self.faces_below(i - 1) + self.slab_faces(i - 1, self.height as int)
        }
    }

    /// The faces of the surface: the exposed sides of every cell that counts
    /// as alive, the cells walked with `x` outermost and `z` innermost.
    pub open spec fn faces(self) -> Seq<Face> {
        self.faces_below(self.width as int)
    }

    /// The faces found when the walk stands before the cell `(x, y, z)`.
    pub open spec fn faces_before(self, x: int, y: int, z: int) -> Seq<Face> {
        self.faces_below(x) + self.slab_faces(x, y) + self.row_faces(x, y, z)
    }

    /// A row of `k` cells has at most `6 * k` faces.
    proof fn lemma_row_faces_len(self, x: int, y: int, k: int)
        requires
            0 <= k,
        ensures
            self.row_faces(x, y, k).len() <= 6 * k,
        decreases k,
    {
        if k > 0 {
            self.lemma_row_faces_len(x, y, k - 1);
        }
    }

    /// A slab of `j` rows has at most `6 * j * depth` faces.
    proof fn lemma_slab_faces_len(self, x: int, j: int)
        requires
            0 <= j,
        ensures
            self.slab_faces(x, j).len() <= 6 * (j * self.depth),
        decreases j,
    {
        if j > 0 {
            self.lemma_slab_faces_len(x, j - 1);
            self.lemma_row_faces_len(x, j - 1, self.depth as int);
            assert((j - 1) * self.depth + self.depth == j * self.depth) by (nonlinear_arith);
        } else {
            assert(j * self.depth == 0) by (nonlinear_arith)
                requires
                    j == 0,
            ;
        }
    }

    /// The first `i` slabs have at most `6 * i * height * depth` faces.
    proof fn lemma_faces_below_len(self, i: int)
        requires
            0 <= i,
        ensures
            self.faces_below(i).len() <= 6 * (i * (self.height * self.depth)),
        decreases i,
    {
        if i > 0 {
            self.lemma_faces_below_len(i - 1);
            self.lemma_slab_faces_len(i - 1, self.height as int);
            assert((i - 1) * (self.height * self.depth) + self.height * self.depth == i * (
            self.height * self.depth)) by (nonlinear_arith);
        } else {
            assert(i * (self.height * self.depth) == 0) by (nonlinear_arith)
                requires
                    i == 0,
            ;
        }
    }

    /// Before any cell of the grid the walk has found fewer faces than
    /// `MAX_FACES` by six at least.
    pub proof fn lemma_faces_before_len(self, x: int, y: int, z: int)
        requires
            self.wf(),
            self.in_bounds(x, y, z),
        ensures
            self.faces_before(x, y, z).len() + 6 <= MAX_FACES,
    {
        self.lemma_faces_below_len(x);
        self.lemma_slab_faces_len(x, y);
        self.lemma_row_faces_len(x, y, z);
        lemma_cell_index_bounds(self.width, self.height, self.depth, x, y, z);
        assert(x * (self.height * self.depth) + y * self.depth + z == cell_index(
            self.height,
            self.depth,
            x,
            y,
            z,
        )) by (nonlinear_arith);
    }
}

/// The vertices of two sequences of faces, one after the other, are those of
/// the two sequences joined.
pub proof fn lemma_face_vertices_concat(a: Seq<Face>, b: Seq<Face>)
    ensures
        face_vertices(a + b) == face_vertices(a) + face_vertices(b),
{
}

/// The indices of two sequences of faces, one after the other, are those of
/// the two sequences joined, where the second is numbered on from the first.
pub proof fn lemma_face_indices_concat(a: Seq<Face>, b: Seq<Face>, first: int)
    ensures
        face_indices(a + b, first) == face_indices(a, first) + face_indices(b, first + a.len()),
{
}

/// Buffers that hold a sequence of faces hold four vertices and six indices
/// for each.
proof fn lemma_buffer_lens(verts: Seq<[u32; 3]>, tris: Seq<u32>, faces: Seq<Face>, first: int)
    requires
        positions(verts) == face_vertices(faces),
        numbers(tris) == face_indices(faces, first),
    ensures
        verts.len() == 4 * faces.len(),
        tris.len() == 6 * faces.len(),
{
    assert(positions(verts).len() == verts.len());
    assert(numbers(tris).len() == tris.len());
}

/// The corners of the side `dir` of the cell `(x, y, z)`.
fn face_corners(x: u32, y: u32, z: u32, dir: Direction) -> (corners: [[u32; 3]; 4])
    requires
        x < u32::MAX,
        y < u32::MAX,
        z < u32::MAX,
    ensures
        forall|k: int|
            0 <= k < 4 ==> position(#[trigger] corners[k]) == (Face {
                x: x as int,
                y: y as int,
                z: z as int,
                dir,
            }).corner(k),
{
    let x1: u32 = x + 1;
    let y1: u32 = y + 1;
    let z1: u32 = z + 1;
    match dir {
        Direction::NegZ => [[x, y1, z], [x1, y1, z], [x1, y, z], [x, y, z]],
        Direction::NegY => [[x, y, z], [x1, y, z], [x1, y, z1], [x, y, z1]],
        Direction::NegX => [[x, y, z1], [x, y1, z1], [x, y1, z], [x, y, z]],
        Direction::PosX => [[x1, y, z], [x1, y1, z], [x1, y1, z1], [x1, y, z1]],
        Direction::PosY => [[x, y1, z1], [x1, y1, z1], [x1, y1, z], [x, y1, z]],
        Direction::PosZ => [[x, y, z1], [x1, y, z1], [x1, y1, z1], [x, y1, z1]],
    }
}

/// Appends the side `dir` of the cell `(x, y, z)` to the buffers as face
/// number `number`.
fn push_face(
    verts: &mut Vec<[u32; 3]>,
    tris: &mut Vec<u32>,
    x: u32,
    y: u32,
    z: u32,
    dir: Direction,
    number: u32,
)
    requires
        x < u32::MAX,
        y < u32::MAX,
        z < u32::MAX,
        number < MAX_FACES,
    ensures
        positions(final(verts)@) == positions(old(verts)@) + face_vertices(
            seq![Face { x: x as int, y: y as int, z: z as int, dir }],
        ),
        numbers(final(tris)@) == numbers(old(tris)@) + face_indices(
            seq![Face { x: x as int, y: y as int, z: z as int, dir }],
            number as int,
        ),
{
    let corners = face_corners(x, y, z, dir);
    verts.push(corners[0]);
    verts.push(corners[1]);
    verts.push(corners[2]);
    verts.push(corners[3]);
    let base: u32 = number * 4;
    tris.push(base);
    tris.push(base + 1);
    tris.push(base + 2);
    tris.push(base + 2);
    tris.push(base + 3);
    tris.push(base);
}

impl Grid {
    /// Whether nothing covers the side `dir` of the cell `(x, y, z)`.
    pub fn is_exposed(&self, x: usize, y: usize, z: usize, dir: Direction) -> (exposed: bool)
        requires
            self.wf(),
            self@.in_bounds(x as int, y as int, z as int),
        ensures
            exposed == self@.exposed(x as int, y as int, z as int, dir),
    {
        match dir {
            Direction::NegZ => z == 0 || !self.is_cell_alive(x, y, z - 1),
            Direction::NegY => y == 0 || !self.is_cell_alive(x, y - 1, z),
            Direction::NegX => x == 0 || !self.is_cell_alive(x - 1, y, z),
            Direction::PosX => x == self.width() - 1 || !self.is_cell_alive(x + 1, y, z),
            Direction::PosY => y == self.height() - 1 || !self.is_cell_alive(x, y + 1, z),
            Direction::PosZ => z == self.depth() - 1 || !self.is_cell_alive(x, y, z + 1),
        }
    }

    /// Appends the side `dir` of the cell `(x, y, z)` to the buffers if it is
    /// exposed, and counts it. The buffers hold the faces `found`, numbered
    /// on from `first`.
    fn emit_if_exposed(
        &self,
        x: usize,
        y: usize,
        z: usize,
        dir: Direction,
        verts: &mut Vec<[u32; 3]>,
        tris: &mut Vec<u32>,
        face_count: &mut u32,
        Ghost(found): Ghost<Seq<Face>>,
        Ghost(first): Ghost<int>,
    )
        requires
            self.wf(),
            self@.in_bounds(x as int, y as int, z as int),
            positions(old(verts)@) == face_vertices(found),
            numbers(old(tris)@) == face_indices(found, first),
            *old(face_count) == first + found.len(),
            self@.exposed(x as int, y as int, z as int, dir) ==> *old(face_count) < MAX_FACES,
        ensures
            positions(final(verts)@) == face_vertices(
                found + self@.face_if_exposed(x as int, y as int, z as int, dir),
            ),
            numbers(final(tris)@) == face_indices(
                found + self@.face_if_exposed(x as int, y as int, z as int, dir),
                first,
            ),
            *final(face_count) == first + (found + self@.face_if_exposed(
                x as int,
                y as int,
                z as int,
                dir,
            )).len(),
    {
        let ghost side = self@.face_if_exposed(x as int, y as int, z as int, dir);
        if self.is_exposed(x, y, z, dir) {
            proof {
                lemma_extent_le_volume(self@.width, self@.height, self@.depth);
                lemma_face_vertices_concat(found, side);
                lemma_face_indices_concat(found, side, first);
            }
            push_face(verts, tris, x as u32, y as u32, z as u32, dir, *face_count);
            *face_count += 1;
        }
    }

    /// Builds the exposed sides of the cell `(x, y, z)`, numbered on from
    /// `face_count`.
    ///
    /// Returns the four corners of each face, the six indices of its two
    /// triangles, and the number of faces counted so far. Whether the cell
    /// itself counts as alive plays no part.
    pub fn generate_faces(&self, x: usize, y: usize, z: usize, face_count: u32) -> (out: (
        Vec<[u32; 3]>,
        Vec<u32>,
        usize,
    ))
        requires
            self.wf(),
            self@.in_bounds(x as int, y as int, z as int),
            self@.cell_faces(x as int, y as int, z as int).len() > 0 ==> face_count
                + self@.cell_faces(x as int, y as int, z as int).len() <= MAX_FACES,
        ensures
            positions(out.0@) == face_vertices(self@.cell_faces(x as int, y as int, z as int)),
            numbers(out.1@) == face_indices(
                self@.cell_faces(x as int, y as int, z as int),
                face_count as int,
            ),
            out.2 == face_count + self@.cell_faces(x as int, y as int, z as int).len(),
            out.0@.len() == 4 * self@.cell_faces(x as int, y as int, z as int).len(),
            out.1@.len() == 6 * self@.cell_faces(x as int, y as int, z as int).len(),
    {
        let mut verts: Vec<[u32; 3]> = Vec::new();
        let mut tris: Vec<u32> = Vec::new();
        let mut count: u32 = face_count;
        let ghost first = face_count as int;
        let ghost none = Seq::<Face>::empty();
        let ghost f0 = none + self@.face_if_exposed(x as int, y as int, z as int, Direction::NegZ);
        let ghost f1 = f0 + self@.face_if_exposed(x as int, y as int, z as int, Direction::NegY);
        let ghost f2 = f1 + self@.face_if_exposed(x as int, y as int, z as int, Direction::NegX);
        let ghost f3 = f2 + self@.face_if_exposed(x as int, y as int, z as int, Direction::PosX);
        let ghost f4 = f3 + self@.face_if_exposed(x as int, y as int, z as int, Direction::PosY);
        let ghost f5 = f4 + self@.face_if_exposed(x as int, y as int, z as int, Direction::PosZ);
        proof {
            assert(positions(verts@) =~= face_vertices(none));
            assert(numbers(tris@) =~= face_indices(none, first));
        }
        self.emit_if_exposed(
            x,
            y,
            z,
            Direction::NegZ,
            &mut verts,
            &mut tris,
            &mut count,
            Ghost(none),
            Ghost(first),
        );
        self.emit_if_exposed(
            x,
            y,
            z,
            Direction::NegY,
            &mut verts,
            &mut tris,
            &mut count,
            Ghost(f0),
            Ghost(first),
        );
        self.emit_if_exposed(
            x,
            y,
            z,
            Direction::NegX,
            &mut verts,
            &mut tris,
            &mut count,
            Ghost(f1),
            Ghost(first),
        );
        self.emit_if_exposed(
            x,
            y,
            z,
            Direction::PosX,
            &mut verts,
            &mut tris,
            &mut count,
            Ghost(f2),
            Ghost(first),
        );
        self.emit_if_exposed(
            x,
            y,
            z,
            Direction::PosY,
            &mut verts,
            &mut tris,
            &mut count,
            Ghost(f3),
            Ghost(first),
        );
        self.emit_if_exposed(
            x,
            y,
            z,
            Direction::PosZ,
            &mut verts,
            &mut tris,
            &mut count,
            Ghost(f4),
            Ghost(first),
        );
        proof {
            lemma_buffer_lens(verts@, tris@, f5, first);
        }
        (verts, tris, count as usize)
    }
}

/// Whether the surface that the renderer holds has to be destroyed before a
/// new one is installed.
///
/// The renderer shows one surface of the grid at a time, so it holds one
/// from the extraction before or none yet. To hold more is a fault of the
/// caller, which it must not go on from.
pub fn must_destroy_previous(held: usize) -> (destroy: bool)
    requires
        held <= 1,
    ensures
        destroy == (held == 1),
{
    held == 1
}

/// Builds the surface of the grid.
///
/// Returns the vertex buffer, the index buffer and the number of faces. The
/// faces are the exposed sides of every cell that counts as alive; each has
/// four vertices of its own and six indices, which form two triangles. The
/// cell `(x, y, z)` fills the unit cube from `(x, y, z)` to
/// `(x + 1, y + 1, z + 1)`.
pub fn generate_mesh(grid: &Grid) -> (out: (Vec<[u32; 3]>, Vec<u32>, usize))
    requires
        grid.wf(),
    ensures
        positions(out.0@) == face_vertices(grid@.faces()),
        numbers(out.1@) == face_indices(grid@.faces(), 0),
        out.2 == grid@.faces().len(),
        out.0@.len() == 4 * out.2,
        out.1@.len() == 6 * out.2,
{
    let mut verts: Vec<[u32; 3]> = Vec::new();
    let mut tris: Vec<u32> = Vec::new();
    let mut face_count: usize = 0;
    let width: usize = grid.width();
    let height: usize = grid.height();
    let depth: usize = grid.depth();
    let mut x: usize = 0;
    while x < width
        invariant
            x <= width,
            grid.wf(),
            width == grid@.width,
            height == grid@.height,
            depth == grid@.depth,
            positions(verts@) == face_vertices(grid@.faces_before(x as int, 0, 0)),
            numbers(tris@) == face_indices(grid@.faces_before(x as int, 0, 0), 0),
            face_count == grid@.faces_before(x as int, 0, 0).len(),
        decreases width - x,
    {
        let mut y: usize = 0;
        while y < height
            invariant
                x < width,
                y <= height,
                grid.wf(),
                width == grid@.width,
                height == grid@.height,
                depth == grid@.depth,
                positions(verts@) == face_vertices(grid@.faces_before(x as int, y as int, 0)),
                numbers(tris@) == face_indices(grid@.faces_before(x as int, y as int, 0), 0),
                face_count == grid@.faces_before(x as int, y as int, 0).len(),
            decreases height - y,
        {
            let mut z: usize = 0;
            while z < depth
                invariant
                    x < width,
                    y < height,
                    z <= depth,
                    grid.wf(),
                    width == grid@.width,
                    height == grid@.height,
                    depth == grid@.depth,
                    positions(verts@) == face_vertices(
                        grid@.faces_before(x as int, y as int, z as int),
                    ),
                    numbers(tris@) == face_indices(
                        grid@.faces_before(x as int, y as int, z as int),
                        0,
                    ),
                    face_count == grid@.faces_before(x as int, y as int, z as int).len(),
                decreases depth - z,
            {
                let ghost found = grid@.faces_before(x as int, y as int, z as int);
                let ghost added = grid@.live_cell_faces(x as int, y as int, z as int);
                if grid.is_cell_alive(x, y, z) {
                    proof {
                        grid@.lemma_faces_before_len(x as int, y as int, z as int);
                    }
                    let (mut new_verts, mut new_tris, new_face_count) = grid.generate_faces(
                        x,
                        y,
                        z,
                        face_count as u32,
                    );
                    proof {
                        lemma_face_vertices_concat(found, added);
                        lemma_face_indices_concat(found, added, 0);
                        assert(positions(verts@ + new_verts@) =~= positions(verts@) + positions(
                            new_verts@,
                        ));
                    }
                    verts.append(&mut new_verts);
                    tris.append(&mut new_tris);
                    face_count = new_face_count;
                }
                z += 1;
            }
            assert(grid@.faces_before(x as int, y + 1, 0) =~= grid@.faces_before(
                x as int,
                y as int,
                depth as int,
            ));
            y += 1;
        }
        assert(grid@.faces_before(x + 1, 0, 0) =~= grid@.faces_before(
            x as int,
            height as int,
            0,
        ));
        x += 1;
    }
    proof {
        lemma_buffer_lens(verts@, tris@, grid@.faces(), 0);
    }
    (verts, tris, face_count)
}

} // verus!
