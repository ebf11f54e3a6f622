use voxel_automaton::grid::Grid;
use voxel_automaton::mesh::{generate_mesh, Direction, MAX_FACES};
use voxel_automaton::rules::Rules;
use voxel_automaton::seed::setup_starting_grid;
use voxel_automaton::step::tick;

fn quad_indices(face: u32) -> Vec<u32> {
    vec![face * 4, face * 4 + 1, face * 4 + 2, face * 4 + 2, face * 4 + 3, face * 4]
}

fn indices_of(faces: u32) -> Vec<u32> {
    (0..faces).flat_map(quad_indices).collect()
}

/// The surface built side by side with explicit tests on the coordinates.
fn mesh_by_hand(grid: &Grid) -> (Vec<[u32; 3]>, Vec<u32>, usize) {
    let mut verts = Vec::new();
    let mut tris = Vec::new();
    let mut faces = 0u32;
    let (w, h, d) = (grid.width(), grid.height(), grid.depth());
    for x in 0..w {
        for y in 0..h {
            for z in 0..d {
                if !grid.is_cell_alive(x, y, z) {
                    continue;
                }
                let (a, b, c) = (x as u32, y as u32, z as u32);
                let mut quads: Vec<[[u32; 3]; 4]> = Vec::new();
                if z == 0 || !grid.is_cell_alive(x, y, z - 1) {
                    quads.push([[a, b + 1, c], [a + 1, b + 1, c], [a + 1, b, c], [a, b, c]]);
                }
                if y == 0 || !grid.is_cell_alive(x, y - 1, z) {
                    quads.push([[a, b, c], [a + 1, b, c], [a + 1, b, c + 1], [a, b, c + 1]]);
                }
                if x == 0 || !grid.is_cell_alive(x - 1, y, z) {
                    quads.push([[a, b, c + 1], [a, b + 1, c + 1], [a, b + 1, c], [a, b, c]]);
                }
                if x == w - 1 || !grid.is_cell_alive(x + 1, y, z) {
                    quads.push([
                        [a + 1, b, c],
                        [a + 1, b + 1, c],
                        [a + 1, b + 1, c + 1],
                        [a + 1, b, c + 1],
                    ]);
                }
                if y == h - 1 || !grid.is_cell_alive(x, y + 1, z) {
                    quads.push([
                        [a, b + 1, c + 1],
                        [a + 1, b + 1, c + 1],
                        [a + 1, b + 1, c],
                        [a, b + 1, c],
                    ]);
                }
                if z == d - 1 || !grid.is_cell_alive(x, y, z + 1) {
                    quads.push([
                        [a, b, c + 1],
                        [a + 1, b, c + 1],
                        [a + 1, b + 1, c + 1],
                        [a, b + 1, c + 1],
                    ]);
                }
                for quad in quads {
                    verts.extend_from_slice(&quad);
                    tris.extend(quad_indices(faces));
                    faces += 1;
                }
            }
        }
    }
    (verts, tris, faces as usize)
}

fn scattered(width: usize, height: usize, depth: usize, rules: Rules, mut seed: u32) -> Grid {
    let mut grid = Grid::new(width, height, depth, rules);
    for x in 0..width {
        for y in 0..height {
            for z in 0..depth {
                seed = seed.wrapping_mul(1_103_515_245).wrapping_add(12345);
                grid.set_cell_state(x, y, z, (seed >> 16) % (rules.full_life + 1));
            }
        }
    }
    grid
}

fn cross(u: [i64; 3], v: [i64; 3]) -> [i64; 3] {
    [u[1] * v[2] - u[2] * v[1], u[2] * v[0] - u[0] * v[2], u[0] * v[1] - u[1] * v[0]]
}

fn minus(p: [u32; 3], q: [u32; 3]) -> [i64; 3] {
    [p[0] as i64 - q[0] as i64, p[1] as i64 - q[1] as i64, p[2] as i64 - q[2] as i64]
}

#[test]
fn max_faces_is_a_quarter_of_the_index_range() {
    assert_eq!(MAX_FACES, 1 << 30);
    assert_eq!((MAX_FACES as u64 - 1) * 4 + 3, u32::MAX as u64);
}

#[test]
fn dead_grid_has_no_surface() {
    let grid = Grid::new(4, 4, 4, Rules::default());
    let (verts, tris, faces) = generate_mesh(&grid);
    assert!(verts.is_empty());
    assert!(tris.is_empty());
    assert_eq!(faces, 0);
}

#[test]
fn grid_without_cells_has_no_surface() {
    let grid = Grid::new(3, 0, 3, Rules::default());
    let (verts, tris, faces) = generate_mesh(&grid);
    assert!(verts.is_empty());
    assert!(tris.is_empty());
    assert_eq!(faces, 0);
}

#[test]
fn lone_cell_is_a_whole_cube() {
    let mut grid = Grid::new(3, 3, 3, Rules::default());
    grid.enable_cell(1, 1, 1);
    let (verts, tris, faces) = generate_mesh(&grid);
    assert_eq!(faces, 6);
    assert_eq!(verts.len(), 24);
    assert_eq!(tris.len(), 36);
    let expected: Vec<[u32; 3]> = vec![
        // towards -z
        [1, 2, 1],
        [2, 2, 1],
        [2, 1, 1],
        [1, 1, 1],
        // towards -y
        [1, 1, 1],
        [2, 1, 1],
        [2, 1, 2],
        [1, 1, 2],
        // towards -x
        [1, 1, 2],
        [1, 2, 2],
        [1, 2, 1],
        [1, 1, 1],
        // towards +x
        [2, 1, 1],
        [2, 2, 1],
        [2, 2, 2],
        [2, 1, 2],
        // towards +y
        [1, 2, 2],
        [2, 2, 2],
        [2, 2, 1],
        [1, 2, 1],
        // towards +z
        [1, 1, 2],
        [2, 1, 2],
        [2, 2, 2],
        [1, 2, 2],
    ];
    assert_eq!(verts, expected);
    assert_eq!(
        tris,
        vec![
            0, 1, 2, 2, 3, 0, 4, 5, 6, 6, 7, 4, 8, 9, 10, 10, 11, 8, 12, 13, 14, 14, 15, 12, 16,
            17, 18, 18, 19, 16, 20, 21, 22, 22, 23, 20
        ]
    );
}

#[test]
fn lone_cell_in_a_five_cube_grid_before_any_step() {
    let mut grid = Grid::new(5, 5, 5, Rules::default());
    setup_starting_grid(&mut grid, 0);
    let (verts, tris, faces) = generate_mesh(&grid);
    assert_eq!(faces, 6);
    assert_eq!(verts.len(), 24);
    assert_eq!(tris.len(), 36);
    assert_eq!(tris, indices_of(6));
    for vertex in &verts {
        for axis in 0..3 {
            assert!(vertex[axis] == 2 || vertex[axis] == 3);
        }
    }
    assert_eq!((verts, tris, faces), mesh_by_hand(&grid));
}

#[test]
fn lone_cell_anywhere_shows_six_faces() {
    for &(x, y, z) in &[(0, 0, 0), (3, 3, 3), (0, 2, 3), (1, 0, 2), (2, 1, 1), (3, 0, 0)] {
        let mut grid = Grid::new(4, 4, 4, Rules::default());
        grid.enable_cell(x, y, z);
        let (verts, tris, faces) = generate_mesh(&grid);
        assert_eq!(faces, 6);
        assert_eq!(verts.len(), 24);
        assert_eq!(tris, indices_of(6));
    }
}

#[test]
fn grid_of_one_cell() {
    let mut grid = Grid::new(1, 1, 1, Rules::default());
    grid.enable_cell(0, 0, 0);
    let (verts, tris, faces) = generate_mesh(&grid);
    assert_eq!(faces, 6);
    assert_eq!(verts.len(), 24);
    assert_eq!(tris, indices_of(6));
    assert_eq!(verts[0], [0, 1, 0]);
    assert_eq!(verts[23], [0, 1, 1]);
}

#[test]
fn two_cells_side_by_side_hide_the_shared_side() {
    for &(dx, dy, dz) in &[(1usize, 0usize, 0usize), (0, 1, 0), (0, 0, 1)] {
        let mut grid = Grid::new(5, 5, 5, Rules::default());
        grid.enable_cell(2, 2, 2);
        grid.enable_cell(2 + dx, 2 + dy, 2 + dz);
        let (verts, tris, faces) = generate_mesh(&grid);
        assert_eq!(faces, 10);
        assert_eq!(verts.len(), 40);
        assert_eq!(tris.len(), 60);
        assert_eq!(tris, indices_of(10));
        assert_eq!((verts, tris, faces), mesh_by_hand(&grid));
    }
}

#[test]
fn two_cells_along_x_in_detail() {
    let mut grid = Grid::new(4, 3, 3, Rules::default());
    grid.enable_cell(1, 1, 1);
    grid.enable_cell(2, 1, 1);
    let (verts, tris, faces) = generate_mesh(&grid);
    assert_eq!(faces, 10);
    let expected: Vec<[u32; 3]> = vec![
        // cell (1, 1, 1): -z, -y, -x, +y, +z
        [1, 2, 1],
        [2, 2, 1],
        [2, 1, 1],
        [1, 1, 1],
        [1, 1, 1],
        [2, 1, 1],
        [2, 1, 2],
        [1, 1, 2],
        [1, 1, 2],
        [1, 2, 2],
        [1, 2, 1],
        [1, 1, 1],
        [1, 2, 2],
        [2, 2, 2],
        [2, 2, 1],
        [1, 2, 1],
        [1, 1, 2],
        [2, 1, 2],
        [2, 2, 2],
        [1, 2, 2],
        // cell (2, 1, 1): -z, -y, +x, +y, +z
        [2, 2, 1],
        [3, 2, 1],
        [3, 1, 1],
        [2, 1, 1],
        [2, 1, 1],
        [3, 1, 1],
        [3, 1, 2],
        [2, 1, 2],
        [3, 1, 1],
        [3, 2, 1],
        [3, 2, 2],
        [3, 1, 2],
        [2, 2, 2],
        [3, 2, 2],
        [3, 2, 1],
        [2, 2, 1],
        [2, 1, 2],
        [3, 1, 2],
        [3, 2, 2],
        [2, 2, 2],
    ];
    assert_eq!(verts, expected);
    assert_eq!(tris, indices_of(10));
}

#[test]
fn cells_that_touch_at_an_edge_hide_nothing() {
    let mut grid = Grid::new(4, 4, 4, Rules::default());
    grid.enable_cell(1, 1, 1);
    grid.enable_cell(2, 2, 1);
    grid.enable_cell(3, 3, 3);
    let (verts, tris, faces) = generate_mesh(&grid);
    assert_eq!(faces, 18);
    assert_eq!(verts.len(), 72);
    assert_eq!(tris, indices_of(18));
}

#[test]
fn full_grid_shows_its_outside() {
    let mut grid = Grid::new(3, 4, 5, Rules::default());
    for x in 0..3 {
        for y in 0..4 {
            for z in 0..5 {
                grid.enable_cell(x, y, z);
            }
        }
    }
    let (verts, tris, faces) = generate_mesh(&grid);
    assert_eq!(faces, 2 * (3 * 4 + 3 * 5 + 4 * 5));
    assert_eq!(verts.len(), 4 * faces);
    assert_eq!(tris, indices_of(faces as u32));
    assert_eq!((verts, tris, faces), mesh_by_hand(&grid));
}

#[test]
fn starting_cube_of_the_default_grid() {
    let mut grid = Grid::default();
    setup_starting_grid(&mut grid, 4);
    let (verts, tris, faces) = generate_mesh(&grid);
    assert_eq!(faces, 150);
    assert_eq!(verts.len(), 600);
    assert_eq!(tris.len(), 900);
    for vertex in &verts {
        for axis in 0..3 {
            assert!(8 <= vertex[axis] && vertex[axis] <= 13);
        }
    }
}

#[test]
fn decaying_cells_are_solid_when_they_count() {
    let mut grid = Grid::new(3, 3, 3, Rules::new(3, 4, 4, true));
    grid.set_cell_state(1, 1, 1, 1);
    grid.set_cell_state(1, 1, 2, 2);
    let (_, _, faces) = generate_mesh(&grid);
    assert_eq!(faces, 10);
}

#[test]
fn decaying_cells_are_empty_when_only_full_life_counts() {
    let mut grid = Grid::new(3, 3, 3, Rules::new(3, 4, 4, false));
    grid.set_cell_state(1, 1, 1, 1);
    grid.set_cell_state(1, 1, 2, 2);
    let (verts, tris, faces) = generate_mesh(&grid);
    assert_eq!(faces, 0);
    assert!(verts.is_empty());
    assert!(tris.is_empty());
    grid.set_cell_state(1, 1, 1, 3);
    let (_, _, faces) = generate_mesh(&grid);
    assert_eq!(faces, 6);
    grid.set_cell_state(1, 1, 2, 3);
    let (_, _, faces) = generate_mesh(&grid);
    assert_eq!(faces, 10);
}

#[test]
fn buffers_hold_four_vertices_and_six_indices_a_face() {
    for seed in 1..=8u32 {
        for decaying_counts in [true, false] {
            let grid = scattered(4, 5, 3, Rules::new(3, 4, 4, decaying_counts), seed);
            let (verts, tris, faces) = generate_mesh(&grid);
            assert_eq!(verts.len(), 4 * faces);
            assert_eq!(tris.len(), 6 * faces);
            assert_eq!(tris, indices_of(faces as u32));
        }
    }
}

#[test]
fn surface_agrees_with_a_surface_by_hand() {
    for seed in 1..=8u32 {
        for decaying_counts in [true, false] {
            let grid = scattered(5, 4, 6, Rules::new(3, 4, 4, decaying_counts), seed);
            assert_eq!(generate_mesh(&grid), mesh_by_hand(&grid));
        }
    }
}

#[test]
fn surface_after_steps_agrees_with_a_surface_by_hand() {
    let mut grid = Grid::default();
    setup_starting_grid(&mut grid, 4);
    for _ in 0..4 {
        tick(&mut grid);
        let (verts, tris, faces) = generate_mesh(&grid);
        assert_eq!(verts.len(), 4 * faces);
        assert_eq!(tris.len(), 6 * faces);
        assert_eq!((verts, tris, faces), mesh_by_hand(&grid));
    }
}

#[test]
fn triangles_turn_their_front_outwards() {
    let grid = scattered(4, 4, 4, Rules::default(), 99);
    let (verts, tris, faces) = generate_mesh(&grid);
    assert!(faces > 0);
    for face in 0..faces {
        let quad = &verts[4 * face..4 * face + 4];
        let low = [
            quad.iter().map(|v| v[0]).min().unwrap(),
            quad.iter().map(|v| v[1]).min().unwrap(),
            quad.iter().map(|v| v[2]).min().unwrap(),
        ];
        let mut normals = Vec::new();
        for triangle in 0..2 {
            let at = |k: usize| verts[tris[6 * face + 3 * triangle + k] as usize];
            normals.push(cross(minus(at(1), at(0)), minus(at(2), at(0))));
        }
        assert_eq!(normals[0], normals[1]);
        let normal = normals[0];
        assert_eq!(normal.iter().map(|c| c.abs()).sum::<i64>(), 1);
        // The cell lies behind the face, the cell in front of it is empty or
        // outside the grid.
        let axis = normal.iter().position(|&c| c != 0).unwrap();
        let mut behind = [low[0] as i64, low[1] as i64, low[2] as i64];
        let mut front = behind;
        if normal[axis] > 0 {
            behind[axis] -= 1;
        } else {
            front[axis] -= 1;
        }
        let alive = |p: [i64; 3]| {
            p.iter().all(|&c| 0 <= c && c < 4)
                && grid.is_cell_alive(p[0] as usize, p[1] as usize, p[2] as usize)
        };
        assert!(alive(behind));
        assert!(!alive(front));
    }
}

#[test]
fn faces_of_one_cell_are_numbered_on_from_the_count() {
    let mut grid = Grid::new(3, 3, 3, Rules::default());
    grid.enable_cell(1, 1, 1);
    let (verts, tris, faces) = grid.generate_faces(1, 1, 1, 5);
    assert_eq!(faces, 11);
    assert_eq!(verts.len(), 24);
    let expected: Vec<u32> = (5..11).flat_map(quad_indices).collect();
    assert_eq!(tris, expected);
    assert_eq!(tris[0], 20);
    assert_eq!(tris[35], 40);
}

#[test]
fn faces_of_a_covered_cell() {
    let mut grid = Grid::new(3, 3, 3, Rules::default());
    for x in 0..3 {
        for y in 0..3 {
            for z in 0..3 {
                grid.enable_cell(x, y, z);
            }
        }
    }
    let (verts, tris, faces) = grid.generate_faces(1, 1, 1, 7);
    assert!(verts.is_empty());
    assert!(tris.is_empty());
    assert_eq!(faces, 7);
    // Nothing is numbered, so any count will do.
    let (_, _, faces) = grid.generate_faces(1, 1, 1, u32::MAX);
    assert_eq!(faces, u32::MAX as usize);
}

#[test]
fn faces_of_a_cell_do_not_ask_whether_it_is_alive() {
    let mut grid = Grid::new(3, 3, 3, Rules::default());
    grid.enable_cell(1, 1, 2);
    let (verts, tris, faces) = grid.generate_faces(1, 1, 1, 0);
    assert_eq!(faces, 5);
    assert_eq!(verts.len(), 20);
    assert_eq!(tris, indices_of(5));
    // The side towards +z is the covered one.
    assert_eq!(&verts[16..20], &[[1, 2, 2], [2, 2, 2], [2, 2, 1], [1, 2, 1]]);
}

#[test]
fn faces_up_to_the_last_index() {
    let mut grid = Grid::new(1, 1, 1, Rules::default());
    grid.enable_cell(0, 0, 0);
    let (_, tris, faces) = grid.generate_faces(0, 0, 0, MAX_FACES - 6);
    assert_eq!(faces, MAX_FACES as usize);
    assert_eq!(tris[35], u32::MAX - 3);
    assert_eq!(tris[34], u32::MAX);
}

#[test]
fn sides_are_exposed_at_the_border_and_towards_empty_cells() {
    let mut grid = Grid::new(2, 2, 2, Rules::default());
    grid.enable_cell(0, 0, 0);
    grid.enable_cell(1, 0, 0);
    assert!(grid.is_exposed(0, 0, 0, Direction::NegX));
    assert!(grid.is_exposed(0, 0, 0, Direction::NegY));
    assert!(grid.is_exposed(0, 0, 0, Direction::NegZ));
    assert!(!grid.is_exposed(0, 0, 0, Direction::PosX));
    assert!(grid.is_exposed(0, 0, 0, Direction::PosY));
    assert!(grid.is_exposed(0, 0, 0, Direction::PosZ));
    assert!(!grid.is_exposed(1, 0, 0, Direction::NegX));
    assert!(grid.is_exposed(1, 0, 0, Direction::PosX));
    assert!(grid.is_exposed(1, 1, 1, Direction::PosX));
    assert!(grid.is_exposed(1, 1, 1, Direction::PosY));
    assert!(grid.is_exposed(1, 1, 1, Direction::PosZ));
    assert!(grid.is_exposed(1, 1, 1, Direction::NegX));
    assert!(!grid.is_exposed(1, 1, 0, Direction::NegY));
    assert!(!grid.is_exposed(0, 1, 0, Direction::NegY));
    assert!(!grid.is_exposed(0, 0, 1, Direction::NegZ));
}
