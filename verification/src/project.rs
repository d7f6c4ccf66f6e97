//! Perspective projection: fisheye-corrected distance, projected wall
//! extent, horizon placement, and the linear fog weight.

use vstd::prelude::*;

verus! {

use crate::fixed::{SCALE, clamp_spec, clamp_i64, div_floor};
use crate::ray::{MAX_DIST_GU_FP};
use crate::grid::TILE_SIZE;
use vstd::arithmetic::div_mod::{
    lemma_div_is_ordered, lemma_div_multiples_vanish, lemma_div_pos_is_pos,
    lemma_multiply_divide_le,
};
use vstd::arithmetic::mul::lemma_mul_is_commutative;

/// Width of the rendered framebuffer in pixels: one column per ray.
pub const SCREEN_WIDTH: i64 = 512;

/// Height of the rendered framebuffer in pixels.
pub const SCREEN_HEIGHT: i64 = 512;

/// Projection constant: half a tile over the tangent of half the field
/// of view, in world units.  The field of view is a quarter turn, whose
/// half has tangent one.
pub const PROJECTION_DIST: i64 = 32;

/// Distance at which fog fully swallows a wall, in world ticks.
pub const VIEW_DISTANCE_FP: i64 = 7 * TILE_SIZE * SCALE;

/// Wall heights are clamped here instead of growing without bound as
/// the corrected distance approaches zero.
pub const MAX_WALL_HEIGHT: i64 = 32768;

/// Largest corrected distance the projector accepts, comfortably above
/// anything a bounded cast can report, in world ticks.
pub const MAX_PROJ_DIST_FP: i64 = 0x100_0000_0000;

/// Cosine of the angle between the facing vector and a ray direction,
/// in ticks: their dot product scaled back by one unit.
pub open spec fn cos_between_spec(fx: int, fy: int, ux: int, uy: int) -> int {
    (fx * ux + fy * uy) / (SCALE as int)
}

/// Perpendicular (fisheye-corrected) distance: the raw hit distance
/// scaled by the cosine of the column's angular offset.
pub open spec fn corrected_distance_spec(d: int, c: int) -> int {
    (d * c) / (SCALE as int)
}

/// Projected wall height in pixels for a corrected distance `z`:
/// inversely proportional to `z`, clamped to a finite bound near zero.
pub open spec fn wall_height_spec(z: int) -> int {
    if z < 1 {
        MAX_WALL_HEIGHT as int
    } else {
        let h = (SCREEN_HEIGHT * PROJECTION_DIST * SCALE) / z;
        if h > MAX_WALL_HEIGHT {
            MAX_WALL_HEIGHT as int
        } else {
            h
        }
    }
}

/// Screen row of the horizon: the middle of the screen, shifted by the
/// tangent of the vertical look angle over the tangent of half the
/// field of view (which is one).
pub open spec fn horizon_spec(tan_v: int) -> int {
    (SCREEN_HEIGHT as int) / 2 + (((SCREEN_HEIGHT as int) / 2) * tan_v) / (SCALE as int)
}

/// Fog weight in ticks of one: zero up to half the view distance, one
/// unit from the view distance on, linear in between.
pub open spec fn fog_weight_spec(d: int) -> int {
    clamp_spec(
        (2 * d * SCALE) / (VIEW_DISTANCE_FP as int) - SCALE,
        0,
        SCALE as int,
    )
}

/// Computes the cosine of the angle between the facing vector
/// `(fx, fy)` and the unit ray direction `(ux, uy)`.
pub fn cos_between(fx: i64, fy: i64, ux: i64, uy: i64) -> (c: i64)
    requires
        -SCALE <= fx <= SCALE,
        -SCALE <= fy <= SCALE,
        -SCALE <= ux <= SCALE,
        -SCALE <= uy <= SCALE,
    ensures
        c == cos_between_spec(fx as int, fy as int, ux as int, uy as int),
        -2 * SCALE <= c <= 2 * SCALE,
{
    proof {
        assert(-(SCALE as int) * SCALE <= fx * ux <= (SCALE as int) * SCALE
            && -(SCALE as int) * SCALE <= fy * uy <= (SCALE as int) * SCALE
            && -2 * (SCALE as int) * SCALE <= fx * ux + fy * uy
            && fx * ux + fy * uy <= 2 * (SCALE as int) * SCALE) by (nonlinear_arith)
            requires
                -SCALE <= fx <= SCALE,
                -SCALE <= fy <= SCALE,
                -SCALE <= ux <= SCALE,
                -SCALE <= uy <= SCALE,
        ;
        lemma_div_is_ordered(fx * ux + fy * uy, 2 * (SCALE as int) * SCALE, SCALE as int);
        lemma_div_is_ordered(
            -2 * (SCALE as int) * SCALE,
            fx * ux + fy * uy,
            SCALE as int,
        );
        assert(2 * (SCALE as int) * SCALE == (SCALE as int) * (2 * SCALE)
            && -2 * (SCALE as int) * SCALE == (SCALE as int) * (-2 * SCALE))
            by (nonlinear_arith);
        lemma_div_multiples_vanish(2 * SCALE as int, SCALE as int);
        lemma_div_multiples_vanish(-2 * SCALE as int, SCALE as int);
    }
    div_floor(fx * ux + fy * uy, SCALE)
}

/// Removes fisheye bowing: scales the raw hit distance by the cosine of
/// the column's angular offset.  A ray straight along the facing, whose
/// cosine is one unit, keeps its distance exactly.
pub fn corrected_distance(d: i64, c: i64) -> (z: i64)
    requires
        0 <= d < (MAX_DIST_GU_FP + SCALE * SCALE) * TILE_SIZE,
        -2 * SCALE <= c <= 2 * SCALE,
    ensures
        z == corrected_distance_spec(d as int, c as int),
        -2 * d <= z <= 2 * d,
        c == SCALE ==> z == d,
{
    proof {
        assert(-(d as int) * (2 * SCALE) <= d * c && d * c <= (d as int) * (2 * SCALE))
            by (nonlinear_arith)
            requires
                0 <= d,
                -2 * SCALE <= c <= 2 * SCALE,
        ;
        assert((d as int) * (2 * SCALE) == (SCALE as int) * (2 * d)
            && -(d as int) * (2 * SCALE) == (SCALE as int) * (-2 * d))
            by (nonlinear_arith);
        lemma_div_is_ordered(d * c, (SCALE as int) * (2 * d), SCALE as int);
        lemma_div_is_ordered((SCALE as int) * (-2 * d), d * c, SCALE as int);
        lemma_div_multiples_vanish(2 * d as int, SCALE as int);
        lemma_div_multiples_vanish(-2 * d as int, SCALE as int);
        if c == SCALE {
            assert(d * c == (SCALE as int) * d) by (nonlinear_arith)
                requires
                    c == SCALE,
            ;
            lemma_div_multiples_vanish(d as int, SCALE as int);
        }
    }
    div_floor(d * c, SCALE)
}

/// Projects a corrected distance to a wall height in pixels, clamping
/// near-zero distances to a finite bound instead of letting the height
/// blow up.
pub fn wall_height(z: i64) -> (h: i64)
    ensures
        h == wall_height_spec(z as int),
        0 <= h <= MAX_WALL_HEIGHT,
{
    if z < 1 {
        MAX_WALL_HEIGHT
    } else {
        let raw: i64 = div_floor(SCREEN_HEIGHT * PROJECTION_DIST * SCALE, z);
        proof {
            lemma_div_pos_is_pos(SCREEN_HEIGHT * PROJECTION_DIST * SCALE, z as int);
        }
        if raw > MAX_WALL_HEIGHT {
            MAX_WALL_HEIGHT
        } else {
            raw
        }
    }
}

/// Computes the horizon row for a vertical look angle's tangent.
pub fn horizon(tan_v: i64) -> (y: i64)
    requires
        -1024 * SCALE <= tan_v <= 1024 * SCALE,
    ensures
        y == horizon_spec(tan_v as int),
        -0x100_0000 <= y <= 0x100_0000,
{
    proof {
        lemma_div_is_ordered(256 * tan_v, 256 * 1024 * (SCALE as int), SCALE as int);
        lemma_div_is_ordered(-(256 * 1024 * (SCALE as int)), 256 * tan_v, SCALE as int);
        assert(256 * 1024 * (SCALE as int) == (SCALE as int) * (256 * 1024)
            && -(256 * 1024 * (SCALE as int)) == (SCALE as int) * (-(256 * 1024)))
            by (nonlinear_arith);
        lemma_div_multiples_vanish(256 * 1024 as int, SCALE as int);
        lemma_div_multiples_vanish(-(256 * 1024 as int), SCALE as int);
    }
    SCREEN_HEIGHT / 2 + div_floor((SCREEN_HEIGHT / 2) * tan_v, SCALE)
}

/// Computes the fog weight for a corrected distance: `0` up to half the
/// view distance, a full unit from the view distance on, and linear in
/// between.
pub fn fog_weight(d: i64) -> (w: i64)
    requires
        0 <= d <= MAX_PROJ_DIST_FP,
    ensures
        w == fog_weight_spec(d as int),
        0 <= w <= SCALE,
        2 * d <= VIEW_DISTANCE_FP ==> w == 0,
        d >= VIEW_DISTANCE_FP ==> w == SCALE,
{
    let t: i64 = div_floor(2 * d * SCALE, VIEW_DISTANCE_FP);
    proof {
        let v = VIEW_DISTANCE_FP as int;
        lemma_div_pos_is_pos(2 * (d as int) * SCALE, v);
        lemma_div_is_ordered(2 * (d as int) * SCALE, 0x300_0000_0000_0000, v);
        if 2 * d <= VIEW_DISTANCE_FP {
            assert(2 * (d as int) * SCALE <= v * SCALE) by (nonlinear_arith)
                requires
                    2 * d <= v,
                    SCALE == 65536,
            ;
            lemma_div_is_ordered(2 * (d as int) * SCALE, v * SCALE, v);
            lemma_mul_is_commutative(v, SCALE as int);
            lemma_div_multiples_vanish(SCALE as int, v);
        }
        if d >= VIEW_DISTANCE_FP {
            assert(v * (2 * SCALE) <= 2 * (d as int) * SCALE) by (nonlinear_arith)
                requires
                    d >= v,
                    SCALE == 65536,
            ;
            lemma_div_is_ordered(v * (2 * SCALE), 2 * (d as int) * SCALE, v);
            lemma_div_multiples_vanish(2 * SCALE as int, v);
        }
    }
    clamp_i64(t - SCALE, 0, SCALE)
}

/// A ray cast directly along the camera facing has angular offset zero,
/// so its corrected distance is its raw distance.
pub proof fn lemma_straight_ray_distance(d: int)
    requires
        0 <= d,
    ensures
        corrected_distance_spec(d, SCALE as int) == d,
{
    assert(d * (SCALE as int) == (SCALE as int) * d) by (nonlinear_arith);
    lemma_div_multiples_vanish(d, SCALE as int);
}

/// A flat frontal wall renders flat: columns whose raw distance and
/// angular cosine multiply out to the same perpendicular depth get
/// exactly that depth as corrected distance, and so the same projected
/// wall height.
pub proof fn lemma_frontal_wall_uniform_height(
    d1: int,
    c1: int,
    d2: int,
    c2: int,
    depth: int,
)
    requires
        d1 * c1 == depth * SCALE,
        d2 * c2 == depth * SCALE,
    ensures
        corrected_distance_spec(d1, c1) == depth,
        corrected_distance_spec(d2, c2) == depth,
        wall_height_spec(corrected_distance_spec(d1, c1)) == wall_height_spec(
            corrected_distance_spec(d2, c2),
        ),
{
    assert(depth * (SCALE as int) == (SCALE as int) * depth) by (nonlinear_arith);
    lemma_div_multiples_vanish(depth, SCALE as int);
}

} // verus!
