use voxel_automaton::grid::Grid;
use voxel_automaton::rules::Rules;
use voxel_automaton::seed::{setup_starting_grid, START_SIZE};

fn live_cells(grid: &Grid) -> Vec<(usize, usize, usize)> {
    let mut cells = Vec::new();
    for x in 0..grid.width() {
        for y in 0..grid.height() {
            for z in 0..grid.depth() {
                if grid.get_cell_state(x, y, z) != 0 {
                    cells.push((x, y, z));
                }
            }
        }
    }
    cells
}

#[test]
fn start_size_of_the_default_grid() {
    assert_eq!(START_SIZE, 4);
}

#[test]
fn default_grid_starts_from_a_cube_in_the_middle() {
    let mut grid = Grid::default();
    setup_starting_grid(&mut grid, START_SIZE);
    for x in 0..20 {
        for y in 0..20 {
            for z in 0..20 {
                let cube = 8..=12;
                let inside = cube.contains(&x) && cube.contains(&y) && cube.contains(&z);
                assert_eq!(grid.get_cell_state(x, y, z), if inside { 3 } else { 0 });
            }
        }
    }
    assert_eq!(live_cells(&grid).len(), 125);
}

#[test]
fn cube_of_size_zero_or_one_is_the_middle_cell() {
    for size in [0usize, 1] {
        let mut grid = Grid::new(5, 5, 5, Rules::default());
        setup_starting_grid(&mut grid, size);
        assert_eq!(live_cells(&grid), vec![(2, 2, 2)]);
        assert_eq!(grid.get_cell_state(2, 2, 2), 3);
    }
}

#[test]
fn cube_reaches_half_its_size_each_way() {
    let mut grid = Grid::new(7, 9, 11, Rules::new(5, 4, 4, false));
    setup_starting_grid(&mut grid, 2);
    for x in 0..7 {
        for y in 0..9 {
            for z in 0..11 {
                let inside = (2..=4).contains(&x) && (3..=5).contains(&y) && (4..=6).contains(&z);
                assert_eq!(grid.get_cell_state(x, y, z), if inside { 5 } else { 0 });
            }
        }
    }
    let mut odd = Grid::new(7, 9, 11, Rules::new(5, 4, 4, false));
    setup_starting_grid(&mut odd, 3);
    assert_eq!(live_cells(&odd), live_cells(&grid));
}

#[test]
fn cube_larger_than_the_grid_fills_it() {
    for size in [8usize, 9, 100, usize::MAX] {
        let mut grid = Grid::new(3, 4, 2, Rules::default());
        setup_starting_grid(&mut grid, size);
        assert_eq!(live_cells(&grid).len(), 24);
    }
}

#[test]
fn cube_is_cut_off_at_the_border() {
    let mut grid = Grid::new(4, 2, 1, Rules::default());
    setup_starting_grid(&mut grid, 2);
    // Middles are 2, 1 and 0; the cube reaches one cell each way.
    for x in 0..4 {
        for y in 0..2 {
            let inside = (1..=3).contains(&x);
            assert_eq!(grid.get_cell_state(x, y, 0), if inside { 3 } else { 0 });
        }
    }
}

#[test]
fn cells_outside_the_cube_keep_their_state() {
    let mut grid = Grid::new(5, 5, 5, Rules::default());
    grid.set_cell_state(0, 0, 0, 2);
    grid.set_cell_state(4, 1, 3, 1);
    grid.set_cell_state(2, 2, 2, 1);
    grid.set_cell_state(1, 2, 2, 3);
    setup_starting_grid(&mut grid, 0);
    assert_eq!(grid.get_cell_state(0, 0, 0), 2);
    assert_eq!(grid.get_cell_state(4, 1, 3), 1);
    assert_eq!(grid.get_cell_state(2, 2, 2), 3);
    assert_eq!(grid.get_cell_state(1, 2, 2), 3);
    assert_eq!(live_cells(&grid).len(), 4);
}

#[test]
fn grid_without_cells_can_be_seeded() {
    let mut grid = Grid::new(0, 3, 3, Rules::default());
    setup_starting_grid(&mut grid, 4);
    assert!(live_cells(&grid).is_empty());
}
