//! The static tile grid: world-to-cell conversion and wall lookup.

use vstd::prelude::*;

verus! {

use crate::fixed::SCALE;
use crate::fixed::div_floor;

/// Width of the grid in cells.
pub const MAP_WIDTH: i64 = 8;

/// Height of the grid in cells.
pub const MAP_HEIGHT: i64 = 8;

/// Side length of one cell in world units.
pub const TILE_SIZE: i64 = 64;

/// Side length of one cell in fixed-point world ticks.
pub const TILE_FP: i64 = TILE_SIZE * SCALE;

/// Eastern edge of the world in fixed-point world ticks.
pub const WORLD_MAX_X_FP: i64 = MAP_WIDTH * TILE_FP;

/// Southern edge of the world in fixed-point world ticks.
pub const WORLD_MAX_Y_FP: i64 = MAP_HEIGHT * TILE_FP;

/// Number of wall materials; tile codes run from `0` (empty) to this.
pub const NUM_TEXTURES: i64 = 3;

/// A grid is well formed when it stores one tile code per cell, row by
/// row, and every code names a real material or emptiness.
pub open spec fn grid_wf(grid: Seq<u8>) -> bool {
    &&& grid.len() == MAP_WIDTH * MAP_HEIGHT
    &&& forall|j: int| 0 <= j < grid.len() ==> #[trigger] grid[j] <= NUM_TEXTURES
}

/// Tile code of cell `(cx, cy)`: `0` is empty, anything else is a wall
/// material id.  Cells outside the grid read as empty, so every lookup is
/// bounds-checked before the underlying row is dereferenced.
pub open spec fn wall_at(grid: Seq<u8>, cx: int, cy: int) -> u8 {
    if 0 <= cx < MAP_WIDTH && 0 <= cy < MAP_HEIGHT {
        grid[cy * MAP_WIDTH + cx]
    } else {
        0
    }
}

/// Looks up the tile code of cell `(cx, cy)`, treating out-of-grid cells
/// as empty.
pub fn is_wall(grid: &Vec<u8>, cx: i64, cy: i64) -> (r: u8)
    requires
        grid_wf(grid@),
    ensures
        r == wall_at(grid@, cx as int, cy as int),
{
    if 0 <= cx && cx < MAP_WIDTH && 0 <= cy && cy < MAP_HEIGHT {
        grid[(cy * MAP_WIDTH + cx) as usize]
    } else {
        0
    }
}

/// Cell index containing the world coordinate `pos` (ticks) on one axis.
pub open spec fn cell_of(pos: int) -> int {
    pos / (TILE_FP as int)
}

/// Computes the cell index containing world coordinate `pos` on one axis.
pub fn cell_index(pos: i64) -> (c: i64)
    requires
        i64::MIN < pos,
    ensures
        c == cell_of(pos as int),
{
    div_floor(pos, TILE_FP)
}

} // verus!
