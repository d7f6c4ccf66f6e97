use raycaster::fixed::SCALE;
use raycaster::project::{
    corrected_distance, cos_between, fog_weight, horizon, wall_height, VIEW_DISTANCE_FP,
};

#[test]
fn straight_ahead_keeps_distance() {
    // A ray along the facing has cosine of one unit: no correction.
    for &d in &[0i64, SCALE, 92 * SCALE, 448 * SCALE, 6400 * SCALE] {
        assert_eq!(corrected_distance(d, SCALE), d);
    }
}

#[test]
fn cos_between_is_the_scaled_dot_product() {
    assert_eq!(cos_between(SCALE, 0, SCALE, 0), SCALE);
    assert_eq!(cos_between(SCALE, 0, 0, SCALE), 0);
    assert_eq!(cos_between(SCALE, 0, -SCALE, 0), -SCALE);
    // Two equal diagonal unit vectors: the dot product comes back as
    // one whole unit, up to rounding.
    assert_eq!(cos_between(46341, 46341, 46341, 46341), 65536);
}

#[test]
fn frontal_wall_columns_share_height() {
    // Two columns seeing the same frontal wall: the center column at
    // the perpendicular depth, and an oblique column whose raw
    // distance is twice the depth at a cosine of one half.
    let depth: i64 = 6400000;
    let z1 = corrected_distance(depth, SCALE);
    let z2 = corrected_distance(2 * depth, SCALE / 2);
    assert_eq!(z1, depth);
    assert_eq!(z2, depth);
    assert_eq!(wall_height(z1), wall_height(z2));
    assert_eq!(wall_height(z1), 167);
}

#[test]
fn wall_height_is_inverse_in_distance() {
    // One tile of corrected distance projects to half the screen
    // height times the projection constant: 512 * 32 / 64 = 256.
    assert_eq!(wall_height(64 * SCALE), 256);
    assert_eq!(wall_height(32 * SCALE), 512);
    assert_eq!(wall_height(128 * SCALE), 128);
}

#[test]
fn wall_height_is_clamped_near_zero() {
    assert_eq!(wall_height(0), 32768);
    assert_eq!(wall_height(-5), 32768);
    assert_eq!(wall_height(1), 32768);
}

#[test]
fn horizon_shifts_with_vertical_look() {
    assert_eq!(horizon(0), 256);
    assert_eq!(horizon(SCALE), 512);
    assert_eq!(horizon(-SCALE), 0);
    assert_eq!(horizon(SCALE / 2), 384);
}

#[test]
fn fog_is_zero_up_to_half_the_view_distance() {
    assert_eq!(fog_weight(0), 0);
    assert_eq!(fog_weight(VIEW_DISTANCE_FP / 4), 0);
    assert_eq!(fog_weight(VIEW_DISTANCE_FP / 2), 0);
}

#[test]
fn fog_is_full_from_the_view_distance_on() {
    assert_eq!(fog_weight(VIEW_DISTANCE_FP), SCALE);
    assert_eq!(fog_weight(VIEW_DISTANCE_FP + 12345), SCALE);
    assert_eq!(fog_weight(1000 * VIEW_DISTANCE_FP / 999), SCALE);
}

#[test]
fn fog_is_linear_in_between() {
    // Three quarters of the view distance sits halfway up the ramp.
    assert_eq!(fog_weight(3 * VIEW_DISTANCE_FP / 4), SCALE / 2);
    // Five eighths sits a quarter of the way up.
    assert_eq!(fog_weight(5 * VIEW_DISTANCE_FP / 8), SCALE / 4);
}
