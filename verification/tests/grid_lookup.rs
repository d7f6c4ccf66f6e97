use raycaster::fixed::SCALE;
use raycaster::grid::{cell_index, is_wall, TILE_FP};
use raycaster::render::VerticalLine;

#[test]
fn is_wall_reads_the_grid_row_by_row() {
    let mut grid = vec![0u8; 64];
    grid[3 * 8 + 5] = 2;
    assert_eq!(is_wall(&grid, 5, 3), 2);
    assert_eq!(is_wall(&grid, 3, 5), 0);
    assert_eq!(is_wall(&grid, 0, 0), 0);
}

#[test]
fn out_of_grid_cells_read_as_empty() {
    let grid = vec![7u8; 64];
    assert_eq!(is_wall(&grid, -1, 0), 0);
    assert_eq!(is_wall(&grid, 0, -1), 0);
    assert_eq!(is_wall(&grid, 8, 0), 0);
    assert_eq!(is_wall(&grid, 0, 8), 0);
    assert_eq!(is_wall(&grid, 7, 7), 7);
}

#[test]
fn cell_index_floors_world_ticks() {
    assert_eq!(cell_index(0), 0);
    assert_eq!(cell_index(63 * SCALE), 0);
    assert_eq!(cell_index(64 * SCALE), 1);
    assert_eq!(cell_index(100 * SCALE), 1);
    assert_eq!(cell_index(8 * TILE_FP - 1), 7);
    assert_eq!(cell_index(-1), -1);
}

#[test]
fn vertical_line_keeps_its_fields() {
    let l = VerticalLine::new(3, -7, 512);
    assert_eq!(l.x, 3);
    assert_eq!(l.y0, -7);
    assert_eq!(l.y1, 512);
}
