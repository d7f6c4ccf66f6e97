use raycaster::fixed::SCALE;
use raycaster::player::Player;
use raycaster::render::{
    advance_reveal, background_color, ground_color, material_color, nord_color,
    revealed_columns, render_scene, vertical_line, vertical_textured_line_with_fog,
    Color, Image, VerticalLine,
};

fn rgba(r: u8, g: u8, b: u8) -> Color {
    Color { r, g, b, a: 255 }
}

#[test]
fn new_image_is_filled() {
    let img = Image::new(4, 3, rgba(9, 8, 7));
    for x in 0..4 {
        for y in 0..3 {
            assert_eq!(img.get_pixel(x, y), rgba(9, 8, 7));
        }
    }
}

#[test]
fn vertical_line_paints_half_open_run() {
    let mut img = Image::new(4, 4, rgba(0, 0, 0));
    vertical_line(VerticalLine::new(1, 1, 3), &mut img, rgba(255, 0, 0));
    for x in 0..4 {
        for y in 0..4 {
            let expect = if x == 1 && (y == 1 || y == 2) {
                rgba(255, 0, 0)
            } else {
                rgba(0, 0, 0)
            };
            assert_eq!(img.get_pixel(x, y), expect, "pixel {} {}", x, y);
        }
    }
}

#[test]
fn vertical_line_clamps_to_the_buffer() {
    let mut img = Image::new(4, 4, rgba(0, 0, 0));
    vertical_line(VerticalLine::new(-7, -100, 100), &mut img, rgba(0, 255, 0));
    // The run lands in column 0 and stops short of the last row.
    for y in 0..3 {
        assert_eq!(img.get_pixel(0, y), rgba(0, 255, 0));
    }
    assert_eq!(img.get_pixel(0, 3), rgba(0, 0, 0));
    assert_eq!(img.get_pixel(1, 2), rgba(0, 0, 0));
}

#[test]
fn color_lerp_blends_and_clamps() {
    let black = rgba(0, 0, 0);
    let white = rgba(255, 255, 255);
    assert_eq!(black.lerp(white, 0), black);
    assert_eq!(black.lerp(white, SCALE), white);
    assert_eq!(black.lerp(white, 10 * SCALE), white);
    assert_eq!(black.lerp(white, -5), black);
    assert_eq!(black.lerp(white, SCALE / 2), rgba(127, 127, 127));
    assert_eq!(rgba(100, 200, 40).lerp(rgba(0, 0, 0), SCALE / 4), rgba(75, 150, 30));
}

#[test]
fn textured_line_samples_the_band() {
    // A one-column texture of two rows stretched over four screen
    // rows: the upper half samples the first texel, the lower half the
    // second, and the clamped last row stays unpainted.
    let mut tex = Image::new(1, 2, rgba(10, 0, 0));
    tex.set_pixel(0, 1, rgba(0, 20, 0));
    let mut img = Image::new(1, 4, rgba(1, 1, 1));
    vertical_textured_line_with_fog(
        VerticalLine::new(0, 0, 4),
        &mut img,
        &tex,
        VerticalLine::new(0, 0, 2),
        0,
    );
    assert_eq!(img.get_pixel(0, 0), rgba(10, 0, 0));
    assert_eq!(img.get_pixel(0, 1), rgba(10, 0, 0));
    assert_eq!(img.get_pixel(0, 2), rgba(0, 20, 0));
    assert_eq!(img.get_pixel(0, 3), rgba(1, 1, 1));
}

#[test]
fn textured_line_applies_fog() {
    // Full fog turns every sample into the background color.
    let tex = Image::new(1, 2, rgba(10, 0, 0));
    let mut img = Image::new(1, 4, rgba(1, 1, 1));
    vertical_textured_line_with_fog(
        VerticalLine::new(0, 0, 4),
        &mut img,
        &tex,
        VerticalLine::new(0, 0, 2),
        SCALE,
    );
    assert_eq!(img.get_pixel(0, 0), background_color());
    assert_eq!(img.get_pixel(0, 2), background_color());
}

#[test]
fn material_colors_cover_all_codes() {
    assert_eq!(material_color(1), rgba(0, 120, 242));
    assert_eq!(material_color(2), rgba(230, 41, 56));
    assert_eq!(material_color(3), rgba(0, 227, 48));
    assert_eq!(material_color(0), rgba(0, 0, 0));
    assert_eq!(material_color(200), rgba(0, 0, 0));
}

#[test]
fn reveal_counter_advances_and_saturates() {
    // A quarter second reveals sixty-four columns.
    let n = advance_reveal(0, SCALE / 4);
    assert_eq!(revealed_columns(n), 64);
    let full = advance_reveal(511 * SCALE, 16 * SCALE);
    assert_eq!(full, 512 * SCALE);
    assert_eq!(revealed_columns(full), 512);
}

#[test]
fn missed_columns_show_sky_and_floor() {
    let grid = vec![0u8; 64];
    let texture = Image::new(6, 3, rgba(50, 50, 50));
    let mut img = Image::new(512, 512, nord_color());
    let player = Player::new(100 * SCALE, 100 * SCALE);
    render_scene(&mut img, &texture, &grid, &player, 0, 512);
    // With a level view the horizon sits halfway down the screen.
    assert_eq!(img.get_pixel(0, 0), background_color());
    assert_eq!(img.get_pixel(311, 255), background_color());
    assert_eq!(img.get_pixel(311, 256), ground_color());
    assert_eq!(img.get_pixel(0, 400), ground_color());
    // The bottom row is never painted.
    assert_eq!(img.get_pixel(17, 511), nord_color());
}

#[test]
fn sweep_reveal_leaves_late_columns_untouched() {
    let grid = vec![0u8; 64];
    let texture = Image::new(6, 3, rgba(50, 50, 50));
    let mut img = Image::new(512, 512, nord_color());
    let player = Player::new(100 * SCALE, 100 * SCALE);
    render_scene(&mut img, &texture, &grid, &player, 0, 10);
    assert_eq!(img.get_pixel(9, 0), background_color());
    assert_eq!(img.get_pixel(10, 0), nord_color());
    assert_eq!(img.get_pixel(511, 300), nord_color());
}

#[test]
fn wall_column_is_textured_and_bounded_by_sky_and_floor() {
    // A wall of material 2 four tiles east of the camera: the center
    // column hits it 220 world units ahead, which projects to a run of
    // 74 pixels around the horizon, sampled from the texture's middle
    // band, with no fog at that distance.
    let mut grid = vec![0u8; 64];
    grid[1 * 8 + 5] = 2;
    let mut texture = Image::new(6, 3, rgba(9, 9, 9));
    for x in 0..6 {
        texture.set_pixel(x, 1, rgba(200, 100, 0));
    }
    let mut img = Image::new(512, 512, nord_color());
    let mut player = Player::new(100 * SCALE, 100 * SCALE);
    player.set_direction(SCALE, 0);
    render_scene(&mut img, &texture, &grid, &player, 0, 512);
    assert_eq!(img.get_pixel(256, 218), background_color());
    assert_eq!(img.get_pixel(256, 219), rgba(200, 100, 0));
    assert_eq!(img.get_pixel(256, 256), rgba(200, 100, 0));
    assert_eq!(img.get_pixel(256, 292), rgba(200, 100, 0));
    assert_eq!(img.get_pixel(256, 293), ground_color());
    assert_eq!(img.get_pixel(256, 0), background_color());
    assert_eq!(img.get_pixel(256, 400), ground_color());
    // The leftmost column looks north past the wall and misses.
    assert_eq!(img.get_pixel(0, 0), background_color());
}
