//! Per-column ray casting: grid traversal in increasing distance order
//! until the first occupied cell, bounded by a maximum travel distance.

use vstd::prelude::*;

verus! {

use crate::fixed::{
    SCALE, abs_val, abs_i64, div_floor, mod_floor, lemma_div_abs_bound,
};
use crate::grid::{grid_wf, wall_at, TILE_SIZE, MAP_WIDTH, MAP_HEIGHT};
use vstd::arithmetic::div_mod::{
    lemma_div_is_ordered, lemma_div_is_ordered_by_denominator, lemma_div_multiples_vanish,
    lemma_div_basics_2, lemma_div_pos_is_pos, lemma_multiply_divide_lt,
};
/// Maximum traversal distance in grid-unit ticks; a ray that crosses no
/// wall within this distance reports a miss.
pub const MAX_DIST_GU_FP: i64 = 100 * SCALE;

/// Upper bound on boundary crossings per cast; enough to outlast the
/// distance bound on every direction.
pub const MAX_STEPS: u64 = 256;

/// Stand-in length for an axis the ray never crosses (a zero direction
/// component); larger than any reachable accumulated length.
pub const LEN_INF_FP: i64 = 0x4000_0000_0000;

/// One ray: origin in world ticks and a unit direction in ticks.
#[derive(Clone, Copy, PartialEq, Eq, Structural, Debug)]
pub struct Ray {
    /// Horizontal origin in world ticks.
    pub pos_x: i64,
    /// Vertical origin in world ticks.
    pub pos_y: i64,
    /// Horizontal tick count of the unit direction.
    pub dir_x: i64,
    /// Vertical tick count of the unit direction.
    pub dir_y: i64,
}

/// Everything the renderer needs to know about where a ray struck a wall.
#[derive(Clone, Copy, PartialEq, Eq, Structural, Debug)]
pub struct RayHit {
    /// Horizontal world-tick coordinate of the intersection point.
    pub pos_x: i64,
    /// Vertical world-tick coordinate of the intersection point.
    pub pos_y: i64,
    /// Euclidean distance from the origin to the hit, in world ticks.
    pub world_distance: i64,
    /// True when the crossed boundary was a vertical grid line (a step
    /// along the x axis); selects the shading variant.
    pub x_move: bool,
    /// Fraction of the struck cell covered before the hit point, taken
    /// from the axis that was not advanced; ticks in `[0, SCALE)`.
    pub wall_coord: i64,
    /// Material id of the struck cell; never zero.
    pub wall_type: u8,
}

/// Traversal state between boundary crossings: current cell, per-axis
/// step direction, accumulated length to the next boundary of each axis,
/// per-cell length increments, and the distance and axis of the last
/// crossing.
pub struct DdaState {
    /// Current cell column.
    pub cx: int,
    /// Current cell row.
    pub cy: int,
    /// Cell step along x: `-1` or `1`.
    pub sx: int,
    /// Cell step along y: `-1` or `1`.
    pub sy: int,
    /// Accumulated ray length to the next vertical boundary, grid-unit ticks.
    pub lx: int,
    /// Accumulated ray length to the next horizontal boundary, grid-unit ticks.
    pub ly: int,
    /// Ray length spent crossing one cell horizontally.
    pub dlx: int,
    /// Ray length spent crossing one cell vertically.
    pub dly: int,
    /// Ray length at the most recent crossing.
    pub dist: int,
    /// Whether the most recent crossing was along x.
    pub x_move: bool,
}

/// Result of a bounded traversal: the first occupied cell, or a miss
/// because the distance bound was reached, or because the step budget
/// ran out first.
pub enum CastOutcome {
    /// First occupied cell, with the ray length at its boundary and the
    /// axis crossed to enter it.
    Hit { cx: int, cy: int, dist: int, x_move: bool },
    /// No occupied cell within the maximum traversal distance.
    MissDistance,
    /// The step budget was exhausted before the distance bound.
    MissFuel,
}

/// One boundary crossing: advance whichever axis has the smaller
/// accumulated length, and record that length as the crossing distance.
pub open spec fn dda_advance(s: DdaState) -> DdaState {
    if s.lx < s.ly {
        DdaState {
            cx: s.cx + s.sx,
            cy: s.cy,
            sx: s.sx,
            sy: s.sy,
            lx: s.lx + s.dlx,
            ly: s.ly,
            dlx: s.dlx,
            dly: s.dly,
            dist: s.lx,
            x_move: true,
        }
    } else {
        DdaState {
            cx: s.cx,
            cy: s.cy + s.sy,
            sx: s.sx,
            sy: s.sy,
            lx: s.lx,
            ly: s.ly + s.dly,
            dlx: s.dlx,
            dly: s.dly,
            dist: s.ly,
            x_move: false,
        }
    }
}

/// Bounded grid traversal: crossings happen in increasing distance
/// order; the first non-empty cell entered is the hit.
pub open spec fn dda(grid: Seq<u8>, s: DdaState, fuel: nat) -> CastOutcome
    decreases fuel,
{
    if s.dist >= MAX_DIST_GU_FP {
        CastOutcome::MissDistance
    } else if fuel == 0 {
        CastOutcome::MissFuel
    } else {
        let s2 = dda_advance(s);
        if wall_at(grid, s2.cx, s2.cy) != 0 {
            CastOutcome::Hit { cx: s2.cx, cy: s2.cy, dist: s2.dist, x_move: s2.x_move }
        } else {
            dda(grid, s2, (fuel - 1) as nat)
        }
    }
}

/// Ray length spent crossing one cell along an axis whose direction
/// component is `u` ticks: the reciprocal of the component, or the
/// stand-in infinity when the component is zero.
pub open spec fn axis_delta(u: int) -> int {
    if u == 0 {
        LEN_INF_FP as int
    } else {
        (SCALE * SCALE) / abs_val(u)
    }
}

/// Initial accumulated length for one axis: the fraction of the current
/// cell still ahead of the origin, times the per-cell increment.
pub open spec fn axis_init_len(frac: int, u: int) -> int {
    if u == 0 {
        LEN_INF_FP as int
    } else if u < 0 {
        (frac * axis_delta(u)) / (SCALE as int)
    } else {
        ((SCALE - frac) * axis_delta(u)) / (SCALE as int)
    }
}

impl Ray {
    /// A ray is well formed when its origin lies in the world and its
    /// direction is a nonzero vector no longer than one unit.
    pub open spec fn wf(self) -> bool {
        &&& 0 <= self.pos_x <= MAP_WIDTH * TILE_SIZE * SCALE
        &&& 0 <= self.pos_y <= MAP_HEIGHT * TILE_SIZE * SCALE
        &&& -SCALE <= self.dir_x <= SCALE
        &&& -SCALE <= self.dir_y <= SCALE
        &&& !(self.dir_x == 0 && self.dir_y == 0)
    }

    /// Traversal state at the ray origin.
    pub open spec fn init_state(self) -> DdaState {
        let gx = self.pos_x as int / (TILE_SIZE as int);
        let gy = self.pos_y as int / (TILE_SIZE as int);
        DdaState {
            cx: gx / (SCALE as int),
            cy: gy / (SCALE as int),
            sx: if self.dir_x < 0 {
                -1
            } else {
                1
            },
            sy: if self.dir_y < 0 {
                -1
            } else {
                1
            },
            lx: axis_init_len(gx % (SCALE as int), self.dir_x as int),
            ly: axis_init_len(gy % (SCALE as int), self.dir_y as int),
            dlx: axis_delta(self.dir_x as int),
            dly: axis_delta(self.dir_y as int),
            dist: 0,
            x_move: false,
        }
    }

    /// Outcome of casting this ray through `grid`.
    pub open spec fn cast_outcome(self, grid: Seq<u8>) -> CastOutcome {
        dda(grid, self.init_state(), MAX_STEPS as nat)
    }
}

/// Horizontal world-tick coordinate of the point `dist` grid-unit ticks
/// along the ray.
pub open spec fn hit_pos_x(r: Ray, dist: int) -> int {
    r.pos_x + (r.dir_x * dist * TILE_SIZE) / (SCALE as int)
}

/// Vertical world-tick coordinate of the point `dist` grid-unit ticks
/// along the ray.
pub open spec fn hit_pos_y(r: Ray, dist: int) -> int {
    r.pos_y + (r.dir_y * dist * TILE_SIZE) / (SCALE as int)
}

/// Texture coordinate of a hit: the fractional grid position of the hit
/// point along the axis that was not advanced.
pub open spec fn hit_wall_coord(r: Ray, dist: int, x_move: bool) -> int {
    if x_move {
        (hit_pos_y(r, dist) / (TILE_SIZE as int)) % (SCALE as int)
    } else {
        (hit_pos_x(r, dist) / (TILE_SIZE as int)) % (SCALE as int)
    }
}

/// What a finished cast promises: a `Some` carries the first occupied
/// cell's material, the crossing's distance, axis and texture
/// coordinate, all as reconstructed from the traversal outcome; a `None`
/// means the traversal reached its bound without entering an occupied
/// cell.
pub open spec fn cast_result_ok(ray: Ray, grid: Seq<u8>, r: Option<RayHit>) -> bool {
    let outcome = ray.cast_outcome(grid);
    match r {
        Option::Some(h) => outcome matches CastOutcome::Hit { cx, cy, dist, x_move }
            && h.pos_x == hit_pos_x(ray, dist)
            && h.pos_y == hit_pos_y(ray, dist)
            && h.world_distance == dist * TILE_SIZE
            && 0 <= h.world_distance
            && h.world_distance < (MAX_DIST_GU_FP + SCALE * SCALE) * TILE_SIZE
            && h.x_move == x_move
            && h.wall_coord == hit_wall_coord(ray, dist, x_move)
            && 0 <= h.wall_coord < SCALE
            && h.wall_type == wall_at(grid, cx, cy)
            && h.wall_type != 0,
        Option::None => !(outcome is Hit),
    }
}

/// The hit record (or miss) that casting `ray` through `grid` yields:
/// the cast is a function of the ray and the grid alone, so columns may
/// be computed in any order, or in parallel, with identical results.
pub open spec fn cast_option(ray: Ray, grid: Seq<u8>) -> Option<RayHit> {
    match ray.cast_outcome(grid) {
        CastOutcome::Hit { cx, cy, dist, x_move } => Option::Some(
            RayHit {
                pos_x: hit_pos_x(ray, dist) as i64,
                pos_y: hit_pos_y(ray, dist) as i64,
                world_distance: (dist * TILE_SIZE) as i64,
                x_move,
                wall_coord: hit_wall_coord(ray, dist, x_move) as i64,
                wall_type: wall_at(grid, cx, cy),
            },
        ),
        CastOutcome::MissDistance => Option::None,
        CastOutcome::MissFuel => Option::None,
    }
}

impl Ray {
    /// Creates a ray at `(pos_x, pos_y)` pointing along `(dir_x, dir_y)`,
    /// scaled to unit length.
    pub fn new(pos_x: i64, pos_y: i64, dir_x: i64, dir_y: i64) -> (r: Ray)
        requires
            0 <= pos_x <= MAP_WIDTH * TILE_SIZE * SCALE,
            0 <= pos_y <= MAP_HEIGHT * TILE_SIZE * SCALE,
            -4 * SCALE <= dir_x <= 4 * SCALE,
            -4 * SCALE <= dir_y <= 4 * SCALE,
            !(dir_x == 0 && dir_y == 0),
        ensures
            r.wf(),
            r.pos_x == pos_x,
            r.pos_y == pos_y,
            r.dir_x == crate::fixed::norm_x(dir_x as int, dir_y as int),
            r.dir_y == crate::fixed::norm_y(dir_x as int, dir_y as int),
    {
        let u = crate::fixed::normalize(dir_x, dir_y);
        Ray { pos_x, pos_y, dir_x: u.0, dir_y: u.1 }
    }

    /// Casts this ray through `grid`: crossings are traversed in
    /// increasing distance order and the first occupied cell becomes a
    /// hit record; a ray that reaches the distance or step bound first
    /// reports `None`.
    pub fn cast_ray(&self, grid: &Vec<u8>) -> (r: Option<RayHit>)
        requires
            grid_wf(grid@),
            self.wf(),
        ensures
            cast_result_ok(*self, grid@, r),
            r == cast_option(*self, grid@),
            r is None <==> self.cast_outcome(grid@) is MissDistance,
    {
        let gx: i64 = div_floor(self.pos_x, TILE_SIZE);
        let gy: i64 = div_floor(self.pos_y, TILE_SIZE);
        let mut cx: i64 = div_floor(gx, SCALE);
        let mut cy: i64 = div_floor(gy, SCALE);
        let fx: i64 = mod_floor(gx, SCALE);
        let fy: i64 = mod_floor(gy, SCALE);

        let dlx: i64 = axis_delta_exec(self.dir_x);
        let dly: i64 = axis_delta_exec(self.dir_y);
        let sx: i64 = if self.dir_x < 0 {
            -1
        } else {
            1
        };
        let sy: i64 = if self.dir_y < 0 {
            -1
        } else {
            1
        };
        let mut lx: i64 = axis_init_len_exec(fx, self.dir_x, dlx);
        let mut ly: i64 = axis_init_len_exec(fy, self.dir_y, dly);
        let mut dist: i64 = 0;
        let mut xm: bool = false;
        let mut steps: u64 = 0;

        let ghost s0 = self.init_state();
        let ghost mut s = s0;

        proof {
            assert(0 <= gx <= MAP_WIDTH * SCALE) by {
                lemma_div_pos_is_pos(self.pos_x as int, TILE_SIZE as int);
                lemma_div_is_ordered(
                    self.pos_x as int,
                    MAP_WIDTH * TILE_SIZE * SCALE,
                    TILE_SIZE as int,
                );
                lemma_div_multiples_vanish(MAP_WIDTH * SCALE, TILE_SIZE as int);
                assert(TILE_SIZE * (MAP_WIDTH * SCALE) == MAP_WIDTH * TILE_SIZE * SCALE)
                    by (nonlinear_arith);
            }
            assert(0 <= gy <= MAP_HEIGHT * SCALE) by {
                lemma_div_pos_is_pos(self.pos_y as int, TILE_SIZE as int);
                lemma_div_is_ordered(
                    self.pos_y as int,
                    MAP_HEIGHT * TILE_SIZE * SCALE,
                    TILE_SIZE as int,
                );
                lemma_div_multiples_vanish(MAP_HEIGHT * SCALE, TILE_SIZE as int);
                assert(TILE_SIZE * (MAP_HEIGHT * SCALE) == MAP_HEIGHT * TILE_SIZE * SCALE)
                    by (nonlinear_arith);
            }
            assert(0 <= cx <= MAP_WIDTH) by {
                lemma_div_pos_is_pos(gx as int, SCALE as int);
                lemma_div_is_ordered(gx as int, MAP_WIDTH * SCALE, SCALE as int);
                lemma_div_multiples_vanish(MAP_WIDTH as int, SCALE as int);
                assert(SCALE * MAP_WIDTH == MAP_WIDTH * SCALE) by (nonlinear_arith);
            }
            assert(0 <= cy <= MAP_HEIGHT) by {
                lemma_div_pos_is_pos(gy as int, SCALE as int);
                lemma_div_is_ordered(gy as int, MAP_HEIGHT * SCALE, SCALE as int);
                lemma_div_multiples_vanish(MAP_HEIGHT as int, SCALE as int);
                assert(SCALE * MAP_HEIGHT == MAP_HEIGHT * SCALE) by (nonlinear_arith);
            }
            lemma_axis_init_len_bounds(fx as int, self.dir_x as int, dlx as int);
            lemma_axis_init_len_bounds(fy as int, self.dir_y as int, dly as int);
        }

        while steps < MAX_STEPS && dist < MAX_DIST_GU_FP
            invariant
                grid_wf(grid@),
                self.wf(),
                s0 == self.init_state(),
                steps <= MAX_STEPS,
                s.cx == cx && s.cy == cy && s.sx == sx && s.sy == sy,
                s.lx == lx && s.ly == ly && s.dlx == dlx && s.dly == dly,
                s.dist == dist && s.x_move == xm,
                dda(grid@, s0, MAX_STEPS as nat) == dda(
                    grid@,
                    s,
                    (MAX_STEPS - steps) as nat,
                ),
                sx == -1 || sx == 1,
                sy == -1 || sy == 1,
                self.dir_x == 0 ==> dlx == LEN_INF_FP && lx == LEN_INF_FP,
                self.dir_x != 0 ==> SCALE <= dlx <= SCALE * SCALE && 0 <= lx <= dist + dlx,
                self.dir_y == 0 ==> dly == LEN_INF_FP && ly == LEN_INF_FP,
                self.dir_y != 0 ==> SCALE <= dly <= SCALE * SCALE && 0 <= ly <= dist + dly,
                0 <= dist < MAX_DIST_GU_FP + SCALE * SCALE,
                dist <= lx && dist <= ly,
                -(steps as int) <= cx <= MAP_WIDTH + steps,
                -(steps as int) <= cy <= MAP_HEIGHT + steps,
            decreases MAX_STEPS - steps,
        {
            if lx < ly {
                cx = cx + sx;
                dist = lx;
                lx = lx + dlx;
                xm = true;
            } else {
                cy = cy + sy;
                dist = ly;
                ly = ly + dly;
                xm = false;
            }
            proof {
                s = dda_advance(s);
            }
            steps = steps + 1;
            let wall = crate::grid::is_wall(grid, cx, cy);
            if wall != 0 {
                proof {
                    assert(self.cast_outcome(grid@) matches CastOutcome::Hit {
                        cx: hcx,
                        cy: hcy,
                        dist: hdist,
                        x_move: hxm,
                    } && hcx == cx && hcy == cy && hdist == dist && hxm == xm);
                }
                let hit = self.make_hit(dist, xm, wall);
                return Option::Some(hit);
            }
        }
        proof {
            assert(!(dda(grid@, s0, MAX_STEPS as nat) is Hit));
            lemma_cast_within_distance_bound(*self, grid@);
        }
        Option::None
    }

    /// Builds the hit record for a crossing at ray length `dist`
    /// entering a cell of material `wall`.
    fn make_hit(&self, dist: i64, xm: bool, wall: u8) -> (h: RayHit)
        requires
            self.wf(),
            0 <= dist < MAX_DIST_GU_FP + SCALE * SCALE,
            wall != 0,
        ensures
            h.pos_x == hit_pos_x(*self, dist as int),
            h.pos_y == hit_pos_y(*self, dist as int),
            h.world_distance == dist * TILE_SIZE,
            0 <= h.world_distance,
            h.world_distance < (MAX_DIST_GU_FP + SCALE * SCALE) * TILE_SIZE,
            h.x_move == xm,
            h.wall_coord == hit_wall_coord(*self, dist as int, xm),
            0 <= h.wall_coord < SCALE,
            h.wall_type == wall,
    {
        proof {
            assert(-0x200_0000_0000_0000 <= self.dir_x * dist * TILE_SIZE
                <= 0x200_0000_0000_0000) by (nonlinear_arith)
                requires
                    -SCALE <= self.dir_x <= SCALE,
                    0 <= dist < MAX_DIST_GU_FP + SCALE * SCALE,
                    SCALE == 65536,
                    MAX_DIST_GU_FP == 100 * 65536,
                    TILE_SIZE == 64,
            ;
            assert(-0x200_0000_0000_0000 <= self.dir_y * dist * TILE_SIZE
                <= 0x200_0000_0000_0000) by (nonlinear_arith)
                requires
                    -SCALE <= self.dir_y <= SCALE,
                    0 <= dist < MAX_DIST_GU_FP + SCALE * SCALE,
                    SCALE == 65536,
                    MAX_DIST_GU_FP == 100 * 65536,
                    TILE_SIZE == 64,
            ;
            lemma_div_abs_bound(
                self.dir_x * dist * TILE_SIZE,
                SCALE as int,
                0x200_0000_0000_0000,
            );
            lemma_div_abs_bound(
                self.dir_y * dist * TILE_SIZE,
                SCALE as int,
                0x200_0000_0000_0000,
            );
        }
        let hx: i64 = self.pos_x + div_floor(self.dir_x * dist * TILE_SIZE, SCALE);
        let hy: i64 = self.pos_y + div_floor(self.dir_y * dist * TILE_SIZE, SCALE);
        proof {
            lemma_div_abs_bound(hx as int, TILE_SIZE as int, 0x300_0000_0000_0000);
            lemma_div_abs_bound(hy as int, TILE_SIZE as int, 0x300_0000_0000_0000);
        }
        let coord_src: i64 = if xm {
            hy
        } else {
            hx
        };
        let wall_coord: i64 = mod_floor(div_floor(coord_src, TILE_SIZE), SCALE);
        RayHit {
            pos_x: hx,
            pos_y: hy,
            world_distance: dist * TILE_SIZE,
            x_move: xm,
            wall_coord,
            wall_type: wall,
        }
    }
}

/// Computes `axis_delta` for one direction component.
fn axis_delta_exec(u: i64) -> (d: i64)
    requires
        -SCALE <= u <= SCALE,
    ensures
        d == axis_delta(u as int),
        u == 0 ==> d == LEN_INF_FP,
        u != 0 ==> SCALE <= d <= SCALE * SCALE,
{
    if u == 0 {
        LEN_INF_FP
    } else {
        let a: i64 = abs_i64(u);
        proof {
            lemma_axis_delta_bounds(u as int);
        }
        div_floor(SCALE * SCALE, a)
    }
}

/// Computes `axis_init_len` for one axis.
fn axis_init_len_exec(frac: i64, u: i64, delta: i64) -> (l: i64)
    requires
        0 <= frac < SCALE,
        -SCALE <= u <= SCALE,
        delta == axis_delta(u as int),
        u != 0 ==> SCALE <= delta <= SCALE * SCALE,
    ensures
        l == axis_init_len(frac as int, u as int),
{
    if u == 0 {
        LEN_INF_FP
    } else {
        proof {
            assert(0 <= frac * delta <= 0x1_0000_0000_0000 && 0 <= (SCALE - frac) * delta
                <= 0x1_0000_0000_0000) by (nonlinear_arith)
                requires
                    0 <= frac < SCALE,
                    SCALE <= delta <= SCALE * SCALE,
                    SCALE == 65536,
            ;
        }
        if u < 0 {
            div_floor(frac * delta, SCALE)
        } else {
            div_floor((SCALE - frac) * delta, SCALE)
        }
    }
}

/// Number of screen columns, one ray each.
pub const NUM_RAYS: i64 = 512;

/// Field of view (a quarter turn) in radian ticks.
pub const FOV_FP: i64 = 102944;

/// Largest magnitude of a per-column angular offset: half the field of
/// view in ticks.
pub const COL_OFFSET_MAX: i64 = 51472;

/// Angular offset of column `i` from the camera facing, linear in the
/// column index across the field of view, in radian ticks.
pub open spec fn column_offset(i: int) -> int {
    ((2 * i - NUM_RAYS) * FOV_FP) / (2 * NUM_RAYS)
}

/// Horizontal component of column `i`'s ray direction before
/// normalization: the facing vector rotated by the column offset, with
/// the offset standing for its own tangent.
pub open spec fn column_dir_x(p: crate::player::Player, i: int) -> int {
    p.dir_x - (p.dir_y * column_offset(i)) / (SCALE as int)
}

/// Vertical component of column `i`'s ray direction before
/// normalization.
pub open spec fn column_dir_y(p: crate::player::Player, i: int) -> int {
    p.dir_y + (p.dir_x * column_offset(i)) / (SCALE as int)
}

/// The ray cast for column `i`: camera origin, column direction scaled
/// to unit length.
pub open spec fn column_ray(p: crate::player::Player, i: int) -> Ray {
    Ray {
        pos_x: p.pos_x,
        pos_y: p.pos_y,
        dir_x: crate::fixed::norm_x(column_dir_x(p, i), column_dir_y(p, i)) as i64,
        dir_y: crate::fixed::norm_y(column_dir_x(p, i), column_dir_y(p, i)) as i64,
    }
}

/// Computes `column_offset` for column `i`.
fn column_offset_exec(i: u64) -> (t: i64)
    requires
        i < NUM_RAYS,
    ensures
        t == column_offset(i as int),
        -COL_OFFSET_MAX <= t <= COL_OFFSET_MAX,
{
    let numer: i64 = (2 * (i as i64) - NUM_RAYS) * FOV_FP;
    proof {
        lemma_div_is_ordered(numer as int, NUM_RAYS * FOV_FP, 2 * NUM_RAYS);
        lemma_div_is_ordered(-(NUM_RAYS * FOV_FP), numer as int, 2 * NUM_RAYS);
    }
    div_floor(numer, 2 * NUM_RAYS)
}

/// Rounding the rotation cannot cancel both components of a column
/// direction built from a facing vector of at least half a unit of
/// squared length.
proof fn lemma_column_dir_nonzero(dx: int, dy: int, t: int, qx: int, qy: int)
    requires
        -SCALE <= dx <= SCALE,
        -SCALE <= dy <= SCALE,
        SCALE * SCALE <= 2 * (dx * dx + dy * dy),
        -COL_OFFSET_MAX <= t <= COL_OFFSET_MAX,
        qx == (dy * t) / (SCALE as int),
        qy == (dx * t) / (SCALE as int),
    ensures
        !(dx - qx == 0 && dy + qy == 0),
{
    if dy * dy <= dx * dx {
        assert(32768 <= dx || dx <= -32768) by (nonlinear_arith)
            requires
                SCALE * SCALE <= 2 * (dx * dx + dy * dy),
                dy * dy <= dx * dx,
                SCALE == 65536,
        ;
        if dx >= 0 {
            assert(dy * t < (SCALE as int) * dx) by (nonlinear_arith)
                requires
                    dy * dy <= dx * dx,
                    -COL_OFFSET_MAX <= t <= COL_OFFSET_MAX,
                    32768 <= dx,
                    COL_OFFSET_MAX == 51472,
                    SCALE == 65536,
            ;
            lemma_multiply_divide_lt(dy * t, SCALE as int, dx);
            assert(dx - qx > 0);
        } else {
            assert((SCALE as int) * (dx + 1) <= dy * t) by (nonlinear_arith)
                requires
                    dy * dy <= dx * dx,
                    -COL_OFFSET_MAX <= t <= COL_OFFSET_MAX,
                    dx <= -32768,
                    COL_OFFSET_MAX == 51472,
                    SCALE == 65536,
            ;
            lemma_div_is_ordered((SCALE as int) * (dx + 1), dy * t, SCALE as int);
            lemma_div_multiples_vanish(dx + 1, SCALE as int);
            assert(dx - qx < 0);
        }
    } else {
        assert(32768 <= dy || dy <= -32768) by (nonlinear_arith)
            requires
                SCALE * SCALE <= 2 * (dx * dx + dy * dy),
                dx * dx <= dy * dy,
                SCALE == 65536,
        ;
        if dy >= 0 {
            assert((SCALE as int) * (-dy + 1) <= dx * t) by (nonlinear_arith)
                requires
                    dx * dx <= dy * dy,
                    -COL_OFFSET_MAX <= t <= COL_OFFSET_MAX,
                    32768 <= dy,
                    COL_OFFSET_MAX == 51472,
                    SCALE == 65536,
            ;
            lemma_div_is_ordered((SCALE as int) * (-dy + 1), dx * t, SCALE as int);
            lemma_div_multiples_vanish(-dy + 1, SCALE as int);
            assert(dy + qy > 0);
        } else {
            assert(dx * t < (SCALE as int) * (-dy)) by (nonlinear_arith)
                requires
                    dx * dx <= dy * dy,
                    -COL_OFFSET_MAX <= t <= COL_OFFSET_MAX,
                    dy <= -32768,
                    COL_OFFSET_MAX == 51472,
                    SCALE == 65536,
            ;
            lemma_multiply_divide_lt(dx * t, SCALE as int, -dy);
            assert(dy + qy < 0);
        }
    }
}

impl crate::player::Player {
    /// Casts one ray per column, left to right: each column's direction
    /// is the facing vector rotated by that column's angular offset, so
    /// the record at index `i` depends on the pose, the grid and `i`
    /// alone.
    pub fn cast_rays(&self, grid: &Vec<u8>, num_rays: u64) -> (v: Vec<(Ray, Option<RayHit>)>)
        requires
            self.wf(),
            grid_wf(grid@),
            num_rays <= NUM_RAYS,
        ensures
            v.len() == num_rays,
            forall|i: int|
                0 <= i < num_rays ==> (#[trigger] v[i]).0 == column_ray(*self, i)
                    && v[i].0.wf() && cast_result_ok(v[i].0, grid@, v[i].1)
                    && v[i].1 == cast_option(v[i].0, grid@),
    {
        let mut v: Vec<(Ray, Option<RayHit>)> = Vec::new();
        let mut i: u64 = 0;
        while i < num_rays
            invariant
                self.wf(),
                grid_wf(grid@),
                num_rays <= NUM_RAYS,
                i <= num_rays,
                v.len() == i,
                forall|j: int|
                    0 <= j < i ==> (#[trigger] v[j]).0 == column_ray(*self, j)
                        && v[j].0.wf() && cast_result_ok(v[j].0, grid@, v[j].1)
                        && v[j].1 == cast_option(v[j].0, grid@),
            decreases num_rays - i,
        {
            let t: i64 = column_offset_exec(i);
            proof {
                assert(-0x1_0000_0000 <= self.dir_y * t <= 0x1_0000_0000
                    && -0x1_0000_0000 <= self.dir_x * t <= 0x1_0000_0000
                    && self.dir_y * t <= (SCALE as int) * SCALE
                    && (SCALE as int) * (-SCALE) <= self.dir_y * t
                    && self.dir_x * t <= (SCALE as int) * SCALE
                    && (SCALE as int) * (-SCALE) <= self.dir_x * t) by (nonlinear_arith)
                    requires
                        -SCALE <= self.dir_x <= SCALE,
                        -SCALE <= self.dir_y <= SCALE,
                        -COL_OFFSET_MAX <= t <= COL_OFFSET_MAX,
                        SCALE == 65536,
                        COL_OFFSET_MAX == 51472,
                ;
                vstd::arithmetic::div_mod::lemma_multiply_divide_le(
                    self.dir_y * t,
                    SCALE as int,
                    SCALE as int,
                );
                lemma_div_is_ordered(
                    (SCALE as int) * (-SCALE),
                    self.dir_y * t,
                    SCALE as int,
                );
                lemma_div_multiples_vanish(-SCALE as int, SCALE as int);
                vstd::arithmetic::div_mod::lemma_multiply_divide_le(
                    self.dir_x * t,
                    SCALE as int,
                    SCALE as int,
                );
                lemma_div_is_ordered(
                    (SCALE as int) * (-SCALE),
                    self.dir_x * t,
                    SCALE as int,
                );
            }
            let qx: i64 = div_floor(self.dir_y * t, SCALE);
            let qy: i64 = div_floor(self.dir_x * t, SCALE);
            let cdx: i64 = self.dir_x - qx;
            let cdy: i64 = self.dir_y + qy;
            proof {
                lemma_column_dir_nonzero(
                    self.dir_x as int,
                    self.dir_y as int,
                    t as int,
                    qx as int,
                    qy as int,
                );
            }
            let ray = Ray::new(self.pos_x, self.pos_y, cdx, cdy);
            proof {
                assert(ray == column_ray(*self, i as int));
            }
            let res = ray.cast_ray(grid);
            v.push((ray, res));
            i = i + 1;
        }
        v
    }
}

/// How many more times one axis can be advanced before its accumulated
/// length reaches the distance bound.
pub open spec fn steps_left(l: int, dl: int) -> int {
    if l >= MAX_DIST_GU_FP {
        0
    } else {
        (MAX_DIST_GU_FP - l - 1) / dl + 1
    }
}

/// The state shape that every traversal of a well-formed ray keeps: an
/// axis is either dead (zero direction component, stand-in infinite
/// lengths) or live with a bounded per-cell increment, and at least one
/// axis is live.
pub open spec fn dda_state_wf(s: DdaState) -> bool {
    &&& (s.dlx == LEN_INF_FP && s.lx == LEN_INF_FP) || (SCALE <= s.dlx <= SCALE * SCALE
        && 0 <= s.lx)
    &&& (s.dly == LEN_INF_FP && s.ly == LEN_INF_FP) || (SCALE <= s.dly <= SCALE * SCALE
        && 0 <= s.ly)
    &&& !(s.lx == LEN_INF_FP && s.ly == LEN_INF_FP)
}

/// Advancing a live axis whose length is still under the distance bound
/// spends exactly one of its remaining steps.
proof fn lemma_steps_left_decreases(l: int, dl: int)
    requires
        0 < dl,
        l < MAX_DIST_GU_FP,
    ensures
        steps_left(l + dl, dl) == steps_left(l, dl) - 1,
        steps_left(l, dl) >= 1,
{
    lemma_div_pos_is_pos(MAX_DIST_GU_FP - l - 1, dl);
    if l + dl >= MAX_DIST_GU_FP {
        vstd::arithmetic::div_mod::lemma_basic_div(MAX_DIST_GU_FP - l - 1, dl);
    } else {
        vstd::arithmetic::div_mod::lemma_div_minus_one(MAX_DIST_GU_FP - l - 1, dl);
    }
}

/// With fuel for every step either axis can still take, plus one, a
/// traversal from a well-formed state never runs out of fuel: it ends
/// in a hit or by reaching the distance bound.
proof fn lemma_dda_fuel_sufficient(grid: Seq<u8>, s: DdaState, fuel: nat)
    requires
        dda_state_wf(s),
        steps_left(s.lx, s.dlx) + steps_left(s.ly, s.dly) + 1 <= fuel,
    ensures
        !(dda(grid, s, fuel) is MissFuel),
    decreases fuel,
{
    if s.dist >= MAX_DIST_GU_FP {
    } else {
        assert(steps_left(s.lx, s.dlx) >= 0 && steps_left(s.ly, s.dly) >= 0) by {
            if s.lx < MAX_DIST_GU_FP {
                lemma_div_pos_is_pos(MAX_DIST_GU_FP - s.lx - 1, s.dlx);
            }
            if s.ly < MAX_DIST_GU_FP {
                lemma_div_pos_is_pos(MAX_DIST_GU_FP - s.ly - 1, s.dly);
            }
        }
        let s2 = dda_advance(s);
        if wall_at(grid, s2.cx, s2.cy) != 0 {
        } else if s2.dist >= MAX_DIST_GU_FP {
            assert(dda(grid, s2, (fuel - 1) as nat) == CastOutcome::MissDistance);
        } else {
            if s.lx < s.ly {
                assert(s.lx < MAX_DIST_GU_FP);
                lemma_steps_left_decreases(s.lx, s.dlx);
            } else {
                assert(s.ly < MAX_DIST_GU_FP);
                lemma_steps_left_decreases(s.ly, s.dly);
            }
            lemma_dda_fuel_sufficient(grid, s2, (fuel - 1) as nat);
        }
    }
}

/// Casting terminates within the configured maximum traversal distance:
/// for every well-formed ray and every grid, the bounded traversal ends
/// in a hit or by reaching the distance bound, never by exhausting its
/// step budget.
pub proof fn lemma_cast_within_distance_bound(ray: Ray, grid: Seq<u8>)
    requires
        ray.wf(),
    ensures
        !(ray.cast_outcome(grid) is MissFuel),
        ray.cast_outcome(grid) is Hit || ray.cast_outcome(grid) is MissDistance,
{
    let s = ray.init_state();
    let gx = ray.pos_x as int / (TILE_SIZE as int);
    let gy = ray.pos_y as int / (TILE_SIZE as int);
    vstd::arithmetic::div_mod::lemma_mod_bound(gx, SCALE as int);
    vstd::arithmetic::div_mod::lemma_mod_bound(gy, SCALE as int);
    lemma_axis_init_len_bounds(gx % (SCALE as int), ray.dir_x as int, s.dlx);
    lemma_axis_init_len_bounds(gy % (SCALE as int), ray.dir_y as int, s.dly);
    assert(dda_state_wf(s)) by {
        if ray.dir_x != 0 {
            lemma_axis_delta_bounds(ray.dir_x as int);
        }
        if ray.dir_y != 0 {
            lemma_axis_delta_bounds(ray.dir_y as int);
        }
    }
    assert(steps_left(s.lx, s.dlx) <= 100 && steps_left(s.ly, s.dly) <= 100) by {
        lemma_steps_left_small(s.lx, s.dlx);
        lemma_steps_left_small(s.ly, s.dly);
    }
    lemma_dda_fuel_sufficient(grid, s, MAX_STEPS as nat);
}

/// An axis that advances at least one grid unit per step can take at
/// most one hundred steps inside the distance bound.
proof fn lemma_steps_left_small(l: int, dl: int)
    requires
        (dl == LEN_INF_FP && l == LEN_INF_FP) || (SCALE <= dl && 0 <= l),
    ensures
        steps_left(l, dl) <= 100,
{
    if l < MAX_DIST_GU_FP {
        assert(SCALE <= dl && 0 <= l);
        lemma_div_is_ordered(MAX_DIST_GU_FP - l - 1, MAX_DIST_GU_FP - 1, dl);
        lemma_div_is_ordered_by_denominator(MAX_DIST_GU_FP - 1, SCALE as int, dl);
    }
}

/// A nonzero direction component keeps its per-cell increment between
/// one grid unit and one full reciprocal tick.
proof fn lemma_axis_delta_bounds(u: int)
    requires
        u != 0,
        -SCALE <= u <= SCALE,
    ensures
        SCALE <= axis_delta(u) <= SCALE * SCALE,
{
    lemma_div_is_ordered_by_denominator(SCALE * SCALE, 1, abs_val(u));
    lemma_div_basics_2(SCALE * SCALE);
    lemma_div_is_ordered_by_denominator(SCALE * SCALE, abs_val(u), SCALE as int);
    lemma_div_multiples_vanish(SCALE as int, SCALE as int);
}

/// With the vertical axis dead, every crossing the traversal makes is
/// a step along x.
proof fn lemma_dda_only_x(grid: Seq<u8>, s: DdaState, fuel: nat)
    requires
        s.ly == LEN_INF_FP,
        SCALE <= s.dlx <= SCALE * SCALE,
        0 <= s.lx,
        s.lx + fuel * s.dlx < LEN_INF_FP,
    ensures
        dda(grid, s, fuel) matches CastOutcome::Hit { cx, cy, dist, x_move } ==> x_move
            && cy == s.cy,
    decreases fuel,
{
    if s.dist >= MAX_DIST_GU_FP || fuel == 0 {
    } else {
        assert(0 <= (fuel - 1) * s.dlx && (fuel - 1) * s.dlx == fuel * s.dlx - s.dlx)
            by (nonlinear_arith)
            requires
                1 <= fuel,
                0 < s.dlx,
        ;
        assert(s.lx < s.ly);
        let s2 = dda_advance(s);
        if wall_at(grid, s2.cx, s2.cy) != 0 {
        } else {
            lemma_dda_only_x(grid, s2, (fuel - 1) as nat);
        }
    }
}

/// With the horizontal axis dead, every crossing the traversal makes
/// is a step along y.
proof fn lemma_dda_only_y(grid: Seq<u8>, s: DdaState, fuel: nat)
    requires
        s.lx == LEN_INF_FP,
        SCALE <= s.dly <= SCALE * SCALE,
        0 <= s.ly,
        s.ly + fuel * s.dly < LEN_INF_FP,
    ensures
        dda(grid, s, fuel) matches CastOutcome::Hit { cx, cy, dist, x_move } ==> !x_move
            && cx == s.cx,
    decreases fuel,
{
    if s.dist >= MAX_DIST_GU_FP || fuel == 0 {
    } else {
        assert(0 <= (fuel - 1) * s.dly && (fuel - 1) * s.dly == fuel * s.dly - s.dly)
            by (nonlinear_arith)
            requires
                1 <= fuel,
                0 < s.dly,
        ;
        assert(!(s.lx < s.ly));
        let s2 = dda_advance(s);
        if wall_at(grid, s2.cx, s2.cy) != 0 {
        } else {
            lemma_dda_only_y(grid, s2, (fuel - 1) as nat);
        }
    }
}

/// A horizontal ray casts cleanly: with a zero vertical direction
/// component the integer traversal crosses only vertical grid lines,
/// so any hit reports an x crossing and lies in the starting row.
pub proof fn lemma_axis_aligned_horizontal(ray: Ray, grid: Seq<u8>)
    requires
        ray.wf(),
        ray.dir_y == 0,
    ensures
        ray.cast_outcome(grid) matches CastOutcome::Hit { cx, cy, dist, x_move }
            ==> x_move && cy == ray.init_state().cy,
{
    let s = ray.init_state();
    let gx = ray.pos_x as int / (TILE_SIZE as int);
    vstd::arithmetic::div_mod::lemma_mod_bound(gx, SCALE as int);
    lemma_axis_delta_bounds(ray.dir_x as int);
    lemma_axis_init_len_bounds(gx % (SCALE as int), ray.dir_x as int, s.dlx);
    assert(s.lx + (MAX_STEPS as int) * s.dlx < LEN_INF_FP) by (nonlinear_arith)
        requires
            0 <= s.lx <= s.dlx,
            SCALE <= s.dlx <= SCALE * SCALE,
            SCALE == 65536,
            MAX_STEPS == 256,
            LEN_INF_FP == 0x4000_0000_0000,
    ;
    lemma_dda_only_x(grid, s, MAX_STEPS as nat);
}

/// A vertical ray casts cleanly: with a zero horizontal direction
/// component the integer traversal crosses only horizontal grid lines,
/// so any hit reports a y crossing and lies in the starting column.
pub proof fn lemma_axis_aligned_vertical(ray: Ray, grid: Seq<u8>)
    requires
        ray.wf(),
        ray.dir_x == 0,
    ensures
        ray.cast_outcome(grid) matches CastOutcome::Hit { cx, cy, dist, x_move }
            ==> !x_move && cx == ray.init_state().cx,
{
    let s = ray.init_state();
    let gy = ray.pos_y as int / (TILE_SIZE as int);
    vstd::arithmetic::div_mod::lemma_mod_bound(gy, SCALE as int);
    lemma_axis_delta_bounds(ray.dir_y as int);
    lemma_axis_init_len_bounds(gy % (SCALE as int), ray.dir_y as int, s.dly);
    assert(s.ly + (MAX_STEPS as int) * s.dly < LEN_INF_FP) by (nonlinear_arith)
        requires
            0 <= s.ly <= s.dly,
            SCALE <= s.dly <= SCALE * SCALE,
            SCALE == 65536,
            MAX_STEPS == 256,
            LEN_INF_FP == 0x4000_0000_0000,
    ;
    lemma_dda_only_y(grid, s, MAX_STEPS as nat);
}

/// The initial accumulated length of an axis is between zero and one
/// full per-cell increment.
proof fn lemma_axis_init_len_bounds(frac: int, u: int, delta: int)
    requires
        0 <= frac < SCALE,
        -SCALE <= u <= SCALE,
        delta == axis_delta(u),
    ensures
        u == 0 ==> axis_init_len(frac, u) == LEN_INF_FP,
        u != 0 ==> 0 <= axis_init_len(frac, u) <= delta,
{
    if u != 0 {
        lemma_axis_delta_bounds(u);
        let f = if u < 0 {
            frac
        } else {
            SCALE - frac
        };
        assert(0 <= f <= SCALE);
        assert(0 <= f * delta <= SCALE * delta) by (nonlinear_arith)
            requires
                0 <= f <= SCALE,
                0 <= delta,
        ;
        lemma_div_pos_is_pos(f * delta, SCALE as int);
        lemma_div_is_ordered(f * delta, (SCALE as int) * delta, SCALE as int);
        lemma_div_multiples_vanish(delta, SCALE as int);
    }
}

} // verus!
