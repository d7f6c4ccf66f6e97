//! Camera pose and per-frame movement: turning, looking, and sliding
//! collision against the tile grid.

use vstd::prelude::*;

verus! {

use crate::fixed::{
    SCALE, clamp_spec, clamp_i64, div_floor, mod_floor, norm_x, norm_y, normalize,
};
use crate::grid::{
    grid_wf, wall_at, cell_of, cell_index, is_wall, WORLD_MAX_X_FP, WORLD_MAX_Y_FP,
};

/// One full turn (two pi radians) in angle ticks.
pub const TWO_PI_FP: i64 = 411775;

/// Bound on the vertical look angle, strictly short of a quarter turn,
/// in angle ticks.
pub const VERT_LIMIT_FP: i64 = 98041;

/// Walking speed in world units per second.
pub const MOVE_SPEED: i64 = 100;

/// Turning speed of the arrow keys in radians per second.
pub const TURN_RATE: i64 = 3;

/// Mouse pixels per radian of turn: each pixel turns one milliradian.
pub const MOUSE_UNIT: i64 = 1000;

/// Upper bound accepted for one frame's duration, in ticks of a second.
pub const MAX_DELTA_FP: i64 = 16 * SCALE;

/// Upper bound accepted for one frame's mouse motion, in pixels.
pub const MAX_MOUSE: i64 = 1000000;

/// Discrete input state for one frame, as sampled by the caller.
#[derive(Clone, Copy, PartialEq, Eq, Structural, Debug)]
pub struct InputState {
    /// Turn left (counter-clockwise) key.
    pub key_left: bool,
    /// Turn right (clockwise) key.
    pub key_right: bool,
    /// Look up key.
    pub key_up: bool,
    /// Look down key.
    pub key_down: bool,
    /// Walk forward key.
    pub key_w: bool,
    /// Strafe left key.
    pub key_a: bool,
    /// Walk backward key.
    pub key_s: bool,
    /// Strafe right key.
    pub key_d: bool,
    /// Horizontal mouse motion since the last frame, in device pixels.
    pub mouse_dx: i64,
    /// Vertical mouse motion since the last frame, in device pixels.
    pub mouse_dy: i64,
    /// Whether the cursor is grabbed, so that mouse motion steers the view.
    pub grabbed: bool,
}

/// Camera pose: continuous world position, facing angle, vertical look
/// angle, and the facing unit vector that the caller keeps in step with
/// the facing angle.
#[derive(Clone, Copy, PartialEq, Eq, Structural, Debug)]
pub struct Player {
    /// Horizontal world position in ticks.
    pub pos_x: i64,
    /// Vertical world position in ticks.
    pub pos_y: i64,
    /// Facing angle in radian ticks, wrapped to `[0, TWO_PI_FP)`.
    pub angle: i64,
    /// Vertical look angle in radian ticks, clamped to
    /// `[-VERT_LIMIT_FP, VERT_LIMIT_FP]`.
    pub angle_vertical: i64,
    /// Horizontal tick count of the facing unit vector.
    pub dir_x: i64,
    /// Vertical tick count of the facing unit vector.
    pub dir_y: i64,
}

impl Player {
    /// A pose is well formed when the position lies inside the world,
    /// both angles lie in their wrap or clamp ranges, and the facing
    /// vector is a rounded cosine-sine pair: no component beyond one
    /// unit, and at least half a unit of squared length in all.
    pub open spec fn wf(self) -> bool {
        &&& 0 <= self.pos_x <= WORLD_MAX_X_FP
        &&& 0 <= self.pos_y <= WORLD_MAX_Y_FP
        &&& 0 <= self.angle < TWO_PI_FP
        &&& -VERT_LIMIT_FP <= self.angle_vertical <= VERT_LIMIT_FP
        &&& -SCALE <= self.dir_x <= SCALE
        &&& -SCALE <= self.dir_y <= SCALE
        &&& SCALE * SCALE <= 2 * (self.dir_x * self.dir_x + self.dir_y * self.dir_y)
    }

    /// Creates a pose at `(pos_x, pos_y)` facing east with a level view.
    pub fn new(pos_x: i64, pos_y: i64) -> (p: Player)
        requires
            0 <= pos_x <= WORLD_MAX_X_FP,
            0 <= pos_y <= WORLD_MAX_Y_FP,
        ensures
            p.wf(),
            p.pos_x == pos_x,
            p.pos_y == pos_y,
            p.angle == 0,
            p.angle_vertical == 0,
            p.dir_x == SCALE,
            p.dir_y == 0,
    {
        Player {
            pos_x,
            pos_y,
            angle: 0,
            angle_vertical: 0,
            dir_x: SCALE,
            dir_y: 0,
        }
    }
}

/// Signed change of the facing angle demanded by one frame's input, in
/// radian ticks.
pub open spec fn turn_amount(input: InputState, delta: int) -> int {
    (if input.key_right {
        TURN_RATE * delta
    } else {
        0
    }) - (if input.key_left {
        TURN_RATE * delta
    } else {
        0
    }) + (if input.grabbed {
        (input.mouse_dx * SCALE) / (MOUSE_UNIT as int)
    } else {
        0
    })
}

/// Signed change of the vertical look angle demanded by one frame's
/// input, in radian ticks; mouse motion downward lowers the view.
pub open spec fn tilt_amount(input: InputState, delta: int) -> int {
    (if input.key_up {
        TURN_RATE * delta
    } else {
        0
    }) - (if input.key_down {
        TURN_RATE * delta
    } else {
        0
    }) - (if input.grabbed {
        (input.mouse_dy * SCALE) / (MOUSE_UNIT as int)
    } else {
        0
    })
}

impl Player {
    /// Applies one frame's turn and look input: the facing angle wraps
    /// around a full turn, the vertical look angle is clamped strictly
    /// short of straight up or down.
    pub fn update_view(&mut self, input: &InputState, delta_fp: i64)
        requires
            old(self).wf(),
            0 <= delta_fp <= MAX_DELTA_FP,
            -MAX_MOUSE <= input.mouse_dx <= MAX_MOUSE,
            -MAX_MOUSE <= input.mouse_dy <= MAX_MOUSE,
        ensures
            final(self).wf(),
            final(self).angle == (old(self).angle + turn_amount(*input, delta_fp as int))
                % (TWO_PI_FP as int),
            final(self).angle_vertical == clamp_spec(
                old(self).angle_vertical + tilt_amount(*input, delta_fp as int),
                -VERT_LIMIT_FP as int,
                VERT_LIMIT_FP as int,
            ),
            final(self).pos_x == old(self).pos_x,
            final(self).pos_y == old(self).pos_y,
            final(self).dir_x == old(self).dir_x,
            final(self).dir_y == old(self).dir_y,
    {
        let mut turn: i64 = 0;
        if input.key_right {
            turn = turn + TURN_RATE * delta_fp;
        }
        if input.key_left {
            turn = turn - TURN_RATE * delta_fp;
        }
        let mut tilt: i64 = 0;
        if input.key_up {
            tilt = tilt + TURN_RATE * delta_fp;
        }
        if input.key_down {
            tilt = tilt - TURN_RATE * delta_fp;
        }
        if input.grabbed {
            turn = turn + div_floor(input.mouse_dx * SCALE, MOUSE_UNIT);
            tilt = tilt - div_floor(input.mouse_dy * SCALE, MOUSE_UNIT);
        }
        self.angle = mod_floor(self.angle + turn, TWO_PI_FP);
        self.angle_vertical = clamp_i64(
            self.angle_vertical + tilt,
            -VERT_LIMIT_FP,
            VERT_LIMIT_FP,
        );
    }

    /// Installs the facing unit vector, the cosine and sine of `angle`
    /// in ticks; the caller owns the trigonometry that produces them.
    /// A genuine cosine-sine pair has squared length within rounding of
    /// one unit, so demanding at least half a unit squared loses nothing.
    pub fn set_direction(&mut self, dir_x: i64, dir_y: i64)
        requires
            old(self).wf(),
            -SCALE <= dir_x <= SCALE,
            -SCALE <= dir_y <= SCALE,
            SCALE * SCALE <= 2 * (dir_x * dir_x + dir_y * dir_y),
        ensures
            final(self).wf(),
            final(self).dir_x == dir_x,
            final(self).dir_y == dir_y,
            final(self).pos_x == old(self).pos_x,
            final(self).pos_y == old(self).pos_y,
            final(self).angle == old(self).angle,
            final(self).angle_vertical == old(self).angle_vertical,
    {
        self.dir_x = dir_x;
        self.dir_y = dir_y;
    }
}

/// Horizontal component of the raw walk vector for one frame's keys.
pub open spec fn move_vec_x(p: Player, input: InputState) -> int {
    (if input.key_w {
        p.dir_x as int
    } else {
        0
    }) - (if input.key_s {
        p.dir_x as int
    } else {
        0
    }) + (if input.key_a {
        p.dir_y as int
    } else {
        0
    }) - (if input.key_d {
        p.dir_y as int
    } else {
        0
    })
}

/// Vertical component of the raw walk vector for one frame's keys.
pub open spec fn move_vec_y(p: Player, input: InputState) -> int {
    (if input.key_w {
        p.dir_y as int
    } else {
        0
    }) - (if input.key_s {
        p.dir_y as int
    } else {
        0
    }) - (if input.key_a {
        p.dir_x as int
    } else {
        0
    }) + (if input.key_d {
        p.dir_x as int
    } else {
        0
    })
}

/// Distance walked along one axis in one frame: the unit walk component
/// times the walking speed times the frame duration, in world ticks.
pub open spec fn scaled_step(mv: int, delta: int) -> int {
    (mv * MOVE_SPEED * delta) / (SCALE as int)
}

/// Sliding movement resolution.  Each axis is applied in turn: the new
/// coordinate is clamped into the world, and reverted if its destination
/// cell holds a wall, so a diagonal push into a wall cancels only the
/// blocked axis.
pub open spec fn resolve_move(
    grid: Seq<u8>,
    px: int,
    py: int,
    step_x: int,
    step_y: int,
) -> (int, int) {
    let nx = clamp_spec(px + step_x, 0, WORLD_MAX_X_FP as int);
    let x2 = if wall_at(grid, cell_of(nx), cell_of(py)) != 0 {
        px
    } else {
        nx
    };
    let ny = clamp_spec(py + step_y, 0, WORLD_MAX_Y_FP as int);
    let y2 = if wall_at(grid, cell_of(x2), cell_of(ny)) != 0 {
        py
    } else {
        ny
    };
    (x2, y2)
}

impl Player {
    /// Walks by the unit vector `(mv_x, mv_y)` for one frame, sliding
    /// along walls axis by axis.
    pub fn touching_wall(&mut self, mv_x: i64, mv_y: i64, delta_fp: i64, grid: &Vec<u8>)
        requires
            old(self).wf(),
            grid_wf(grid@),
            -SCALE <= mv_x <= SCALE,
            -SCALE <= mv_y <= SCALE,
            0 <= delta_fp <= MAX_DELTA_FP,
        ensures
            final(self).wf(),
            (final(self).pos_x as int, final(self).pos_y as int) == resolve_move(
                grid@,
                old(self).pos_x as int,
                old(self).pos_y as int,
                scaled_step(mv_x as int, delta_fp as int),
                scaled_step(mv_y as int, delta_fp as int),
            ),
            final(self).angle == old(self).angle,
            final(self).angle_vertical == old(self).angle_vertical,
            final(self).dir_x == old(self).dir_x,
            final(self).dir_y == old(self).dir_y,
    {
        proof {
            lemma_scaled_step_bounds(mv_x as int, delta_fp as int);
            lemma_scaled_step_bounds(mv_y as int, delta_fp as int);
        }
        let step_x: i64 = div_floor(mv_x * MOVE_SPEED * delta_fp, SCALE);
        let nx: i64 = clamp_i64(self.pos_x + step_x, 0, WORLD_MAX_X_FP);
        if is_wall(grid, cell_index(nx), cell_index(self.pos_y)) == 0 {
            self.pos_x = nx;
        }
        let step_y: i64 = div_floor(mv_y * MOVE_SPEED * delta_fp, SCALE);
        let ny: i64 = clamp_i64(self.pos_y + step_y, 0, WORLD_MAX_Y_FP);
        if is_wall(grid, cell_index(self.pos_x), cell_index(ny)) == 0 {
            self.pos_y = ny;
        }
    }
}

/// Position after one frame of walking: the key vector, normalized to
/// one unit, drives the sliding collision resolution; with no keys held
/// the position stands still.
pub open spec fn advance_result(
    p: Player,
    input: InputState,
    delta: int,
    grid: Seq<u8>,
) -> (int, int) {
    let mx = move_vec_x(p, input);
    let my = move_vec_y(p, input);
    if mx == 0 && my == 0 {
        (p.pos_x as int, p.pos_y as int)
    } else {
        resolve_move(
            grid,
            p.pos_x as int,
            p.pos_y as int,
            scaled_step(norm_x(mx, my), delta),
            scaled_step(norm_y(mx, my), delta),
        )
    }
}

impl Player {
    /// Walks for one frame: composes the walk vector from the held keys
    /// and the facing vector, normalizes it, and slides along walls.
    pub fn advance(&mut self, input: &InputState, delta_fp: i64, grid: &Vec<u8>)
        requires
            old(self).wf(),
            grid_wf(grid@),
            0 <= delta_fp <= MAX_DELTA_FP,
        ensures
            final(self).wf(),
            (final(self).pos_x as int, final(self).pos_y as int) == advance_result(
                *old(self),
                *input,
                delta_fp as int,
                grid@,
            ),
            final(self).angle == old(self).angle,
            final(self).angle_vertical == old(self).angle_vertical,
            final(self).dir_x == old(self).dir_x,
            final(self).dir_y == old(self).dir_y,
    {
        let mut mx: i64 = 0;
        let mut my: i64 = 0;
        if input.key_w {
            mx = mx + self.dir_x;
            my = my + self.dir_y;
        }
        if input.key_s {
            mx = mx - self.dir_x;
            my = my - self.dir_y;
        }
        if input.key_a {
            mx = mx + self.dir_y;
            my = my - self.dir_x;
        }
        if input.key_d {
            mx = mx - self.dir_y;
            my = my + self.dir_x;
        }
        if mx != 0 || my != 0 {
            let u = normalize(mx, my);
            self.touching_wall(u.0, u.1, delta_fp, grid);
        }
    }
}

/// One frame's walk along one axis stays far inside the tick range.
proof fn lemma_scaled_step_bounds(mv: int, delta: int)
    requires
        -SCALE <= mv <= SCALE,
        0 <= delta <= MAX_DELTA_FP,
    ensures
        -0x1_0000_0000_0000 <= mv * MOVE_SPEED * delta <= 0x1_0000_0000_0000,
        -0x1_0000_0000 <= scaled_step(mv, delta) <= 0x1_0000_0000,
{
    assert(-0x1_0000_0000_0000 <= mv * MOVE_SPEED * delta <= 0x1_0000_0000_0000)
        by (nonlinear_arith)
        requires
            -SCALE <= mv <= SCALE,
            0 <= delta <= MAX_DELTA_FP,
            SCALE == 65536,
            MOVE_SPEED == 100,
            MAX_DELTA_FP == 16 * 65536,
    ;
    let p = mv * MOVE_SPEED * delta;
    vstd::arithmetic::div_mod::lemma_div_is_ordered(
        -0x1_0000_0000_0000,
        p,
        SCALE as int,
    );
    vstd::arithmetic::div_mod::lemma_div_is_ordered(p, 0x1_0000_0000_0000, SCALE as int);
}

} // verus!
