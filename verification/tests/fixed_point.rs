use raycaster::fixed::{abs_i64, clamp_i64, div_floor, isqrt, mod_floor, normalize, SCALE};

#[test]
fn div_floor_rounds_toward_negative_infinity() {
    assert_eq!(div_floor(7, 2), 3);
    assert_eq!(div_floor(-7, 2), -4);
    assert_eq!(div_floor(-8, 2), -4);
    assert_eq!(div_floor(0, 5), 0);
    assert_eq!(div_floor(-1, 65536), -1);
}

#[test]
fn mod_floor_is_always_nonnegative() {
    assert_eq!(mod_floor(7, 2), 1);
    assert_eq!(mod_floor(-7, 2), 1);
    assert_eq!(mod_floor(-8, 2), 0);
    assert_eq!(mod_floor(-1, 65536), 65535);
}

#[test]
fn isqrt_is_the_floor_of_the_square_root() {
    assert_eq!(isqrt(0), 0);
    assert_eq!(isqrt(1), 1);
    assert_eq!(isqrt(15), 3);
    assert_eq!(isqrt(16), 4);
    assert_eq!(isqrt(4294967296), 65536);
    assert_eq!(isqrt(u64::MAX), 0xFFFF_FFFF);
}

#[test]
fn clamp_pins_to_the_interval() {
    assert_eq!(clamp_i64(5, 0, 10), 5);
    assert_eq!(clamp_i64(-5, 0, 10), 0);
    assert_eq!(clamp_i64(50, 0, 10), 10);
}

#[test]
fn abs_flips_negatives() {
    assert_eq!(abs_i64(-3), 3);
    assert_eq!(abs_i64(3), 3);
    assert_eq!(abs_i64(0), 0);
}

#[test]
fn normalize_scales_to_one_unit() {
    assert_eq!(normalize(SCALE, 0), (SCALE, 0));
    assert_eq!(normalize(0, -4 * SCALE), (0, -SCALE));
    // A three-four-five triangle scaled exactly.
    assert_eq!(normalize(30000, 40000), (39321, 52428));
    let (ux, uy) = normalize(SCALE, SCALE);
    assert_eq!((ux, uy), (46341, 46341));
}
