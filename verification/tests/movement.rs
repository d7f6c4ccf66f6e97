use raycaster::fixed::{normalize, SCALE};
use raycaster::player::{InputState, Player};

fn grid_with(cells: &[(usize, usize, u8)]) -> Vec<u8> {
    let mut g = vec![0u8; 64];
    for &(x, y, m) in cells {
        g[y * 8 + x] = m;
    }
    g
}

fn no_input() -> InputState {
    InputState {
        key_left: false,
        key_right: false,
        key_up: false,
        key_down: false,
        key_w: false,
        key_a: false,
        key_s: false,
        key_d: false,
        mouse_dx: 0,
        mouse_dy: 0,
        grabbed: false,
    }
}

#[test]
fn wall_east_moving_north_east_slides_north() {
    // A wall fills the cell immediately east of the player's cell.
    // Walking north-east for one second covers about 70 world units on
    // each axis: the x component would enter the wall and is canceled,
    // the y component is applied, so the displacement is purely north.
    let grid = grid_with(&[(3, 2, 1)]);
    let mut p = Player::new(176 * SCALE, 176 * SCALE);
    let (ux, uy) = normalize(SCALE, -SCALE);
    p.touching_wall(ux, uy, SCALE, &grid);
    assert_eq!(p.pos_x, 176 * SCALE, "the blocked east component is canceled");
    assert!(p.pos_y < 176 * SCALE, "the north component is applied");
}

#[test]
fn open_floor_moves_on_both_axes() {
    let grid = grid_with(&[]);
    let mut p = Player::new(176 * SCALE, 176 * SCALE);
    let (ux, uy) = normalize(SCALE, -SCALE);
    p.touching_wall(ux, uy, SCALE, &grid);
    assert!(p.pos_x > 176 * SCALE);
    assert!(p.pos_y < 176 * SCALE);
}

#[test]
fn walking_east_is_exact() {
    // One second of walking east covers exactly the walking speed.
    let grid = grid_with(&[]);
    let mut p = Player::new(100 * SCALE, 100 * SCALE);
    p.touching_wall(SCALE, 0, SCALE, &grid);
    assert_eq!(p.pos_x, 200 * SCALE);
    assert_eq!(p.pos_y, 100 * SCALE);
}

#[test]
fn position_is_clamped_to_the_world() {
    let grid = grid_with(&[]);
    let mut p = Player::new(30 * SCALE, 30 * SCALE);
    // Walk hard north-west for the longest accepted frame.
    p.touching_wall(-SCALE, -SCALE, 16 * SCALE, &grid);
    assert_eq!(p.pos_x, 0);
    assert_eq!(p.pos_y, 0);
}

#[test]
fn advance_with_no_keys_stands_still() {
    let grid = grid_with(&[]);
    let mut p = Player::new(100 * SCALE, 100 * SCALE);
    p.advance(&no_input(), SCALE, &grid);
    assert_eq!((p.pos_x, p.pos_y), (100 * SCALE, 100 * SCALE));
}

#[test]
fn advance_forward_walks_along_facing() {
    let grid = grid_with(&[]);
    let mut p = Player::new(100 * SCALE, 100 * SCALE);
    let mut input = no_input();
    input.key_w = true;
    p.advance(&input, SCALE, &grid);
    assert_eq!(p.pos_x, 200 * SCALE);
    assert_eq!(p.pos_y, 100 * SCALE);
}

#[test]
fn turn_key_turns_at_three_radians_per_second() {
    let mut p = Player::new(100 * SCALE, 100 * SCALE);
    let mut input = no_input();
    input.key_right = true;
    p.update_view(&input, SCALE);
    assert_eq!(p.angle, 3 * SCALE);
}

#[test]
fn facing_angle_wraps_within_a_full_turn() {
    let mut p = Player::new(100 * SCALE, 100 * SCALE);
    let mut input = no_input();
    input.key_right = true;
    p.update_view(&input, SCALE);
    p.update_view(&input, SCALE);
    p.update_view(&input, SCALE);
    // Nine radians wrap past one full turn of 411775 ticks.
    assert_eq!(p.angle, 9 * SCALE - 411775);
    assert!(p.angle >= 0 && p.angle < 411775);
}

#[test]
fn turning_left_from_zero_wraps_to_positive() {
    let mut p = Player::new(100 * SCALE, 100 * SCALE);
    let mut input = no_input();
    input.key_left = true;
    p.update_view(&input, SCALE);
    assert_eq!(p.angle, 411775 - 3 * SCALE);
}

#[test]
fn vertical_look_is_clamped() {
    let mut p = Player::new(100 * SCALE, 100 * SCALE);
    let mut input = no_input();
    input.key_up = true;
    p.update_view(&input, SCALE);
    assert_eq!(p.angle_vertical, 98041, "clamped short of a quarter turn");
    input.key_up = false;
    input.key_down = true;
    p.update_view(&input, 16 * SCALE);
    assert_eq!(p.angle_vertical, -98041);
}

#[test]
fn grabbed_mouse_steers_the_view() {
    let mut p = Player::new(100 * SCALE, 100 * SCALE);
    let mut input = no_input();
    input.mouse_dx = 1000;
    input.mouse_dy = -500;
    p.update_view(&input, 0);
    assert_eq!((p.angle, p.angle_vertical), (0, 0), "ignored while not grabbed");
    input.grabbed = true;
    p.update_view(&input, 0);
    // One thousand pixels turn by one milliradian each.
    assert_eq!(p.angle, 1000 * SCALE / 1000);
    assert_eq!(p.angle_vertical, 500 * SCALE / 1000);
}
