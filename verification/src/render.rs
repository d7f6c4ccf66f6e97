//! Column rendering: the framebuffer, the color palette, fog blending,
//! and the vertical pixel runs that make up one frame.

use vstd::prelude::*;

verus! {

use crate::fixed::{SCALE, clamp_spec, clamp_i64};
use crate::ray::{Ray, RayHit};

/// One pixel: red, green, blue and alpha channels.
#[derive(Clone, Copy, PartialEq, Eq, Structural, Debug)]
pub struct Color {
    /// Red channel.
    pub r: u8,
    /// Green channel.
    pub g: u8,
    /// Blue channel.
    pub b: u8,
    /// Alpha channel.
    pub a: u8,
}

/// Sky and fog color.
pub open spec fn background_color_spec() -> Color {
    Color { r: 73, g: 255, b: 255, a: 255 }
}

/// Floor color.
pub open spec fn ground_color_spec() -> Color {
    Color { r: 36, g: 219, b: 0, a: 255 }
}

/// Overlay color of rays that crossed a vertical boundary last.
pub open spec fn wall_color_light_spec() -> Color {
    Color { r: 153, g: 153, b: 153, a: 255 }
}

/// Overlay color of rays that crossed a horizontal boundary last.
pub open spec fn wall_color_dark_spec() -> Color {
    Color { r: 140, g: 140, b: 140, a: 255 }
}

/// Window clear color.
pub open spec fn nord_color_spec() -> Color {
    Color { r: 46, g: 52, b: 64, a: 255 }
}

/// Returns the sky and fog color.
pub fn background_color() -> (c: Color)
    ensures
        c == background_color_spec(),
{
    Color { r: 73, g: 255, b: 255, a: 255 }
}

/// Returns the floor color.
pub fn ground_color() -> (c: Color)
    ensures
        c == ground_color_spec(),
{
    Color { r: 36, g: 219, b: 0, a: 255 }
}

/// Returns the overlay color of rays that crossed a vertical boundary.
pub fn wall_color_light() -> (c: Color)
    ensures
        c == wall_color_light_spec(),
{
    Color { r: 153, g: 153, b: 153, a: 255 }
}

/// Returns the overlay color of rays that crossed a horizontal boundary.
pub fn wall_color_dark() -> (c: Color)
    ensures
        c == wall_color_dark_spec(),
{
    Color { r: 140, g: 140, b: 140, a: 255 }
}

/// Returns the window clear color.
pub fn nord_color() -> (c: Color)
    ensures
        c == nord_color_spec(),
{
    Color { r: 46, g: 52, b: 64, a: 255 }
}

/// Color of a ray drawn on the top-down overlay: lighter for a ray
/// that crossed a vertical boundary last, darker for a horizontal one.
pub fn ray_overlay_color(x_move: bool) -> (c: Color)
    ensures
        c == (if x_move {
            wall_color_light_spec()
        } else {
            wall_color_dark_spec()
        }),
{
    if x_move {
        wall_color_light()
    } else {
        wall_color_dark()
    }
}

/// Color of one map cell in the top-down overlay, by tile code.
pub open spec fn material_color_spec(code: u8) -> Color {
    if code == 1 {
        Color { r: 0, g: 120, b: 242, a: 255 }
    } else if code == 2 {
        Color { r: 230, g: 41, b: 56, a: 255 }
    } else if code == 3 {
        Color { r: 0, g: 227, b: 48, a: 255 }
    } else {
        Color { r: 0, g: 0, b: 0, a: 255 }
    }
}

/// Picks the overlay color for one map cell: blue, red and green for
/// the three wall materials, black for anything else.
pub fn material_color(code: u8) -> (c: Color)
    ensures
        c == material_color_spec(code),
{
    if code == 1 {
        Color { r: 0, g: 120, b: 242, a: 255 }
    } else if code == 2 {
        Color { r: 230, g: 41, b: 56, a: 255 }
    } else if code == 3 {
        Color { r: 0, g: 227, b: 48, a: 255 }
    } else {
        Color { r: 0, g: 0, b: 0, a: 255 }
    }
}

/// One channel blended `t` ticks of the way from `a` to `b`.
pub open spec fn lerp_channel(a: u8, b: u8, t: int) -> int {
    a + ((b - a) * t) / (SCALE as int)
}

/// The full color blended `t` ticks of the way from `a` to `b`, with
/// `t` clamped into one unit first.
pub open spec fn lerp_color_spec(a: Color, b: Color, t: int) -> Color {
    let tc = clamp_spec(t, 0, SCALE as int);
    Color {
        r: lerp_channel(a.r, b.r, tc) as u8,
        g: lerp_channel(a.g, b.g, tc) as u8,
        b: lerp_channel(a.b, b.b, tc) as u8,
        a: lerp_channel(a.a, b.a, tc) as u8,
    }
}

/// A channel blend by a weight within one unit lands between its
/// endpoints.
proof fn lemma_lerp_channel_bounds(a: u8, b: u8, t: int)
    requires
        0 <= t <= SCALE,
    ensures
        a <= b ==> a <= lerp_channel(a, b, t) <= b,
        b <= a ==> b <= lerp_channel(a, b, t) <= a,
{
    let d = b - a;
    if a <= b {
        assert(0 <= d * t <= d * SCALE) by (nonlinear_arith)
            requires
                0 <= d,
                0 <= t <= SCALE,
        ;
        vstd::arithmetic::div_mod::lemma_div_pos_is_pos(d * t, SCALE as int);
        vstd::arithmetic::div_mod::lemma_div_is_ordered(d * t, d * SCALE, SCALE as int);
        assert(d * SCALE == (SCALE as int) * d) by (nonlinear_arith);
        vstd::arithmetic::div_mod::lemma_div_multiples_vanish(d, SCALE as int);
    } else {
        assert(d * SCALE <= d * t <= 0) by (nonlinear_arith)
            requires
                d <= 0,
                0 <= t <= SCALE,
        ;
        vstd::arithmetic::div_mod::lemma_div_is_ordered(d * SCALE, d * t, SCALE as int);
        vstd::arithmetic::div_mod::lemma_div_is_ordered(d * t, 0, SCALE as int);
        vstd::arithmetic::div_mod::lemma_div_of0(SCALE as int);
        assert(d * SCALE == (SCALE as int) * d) by (nonlinear_arith);
        vstd::arithmetic::div_mod::lemma_div_multiples_vanish(d, SCALE as int);
    }
}

impl Color {
    /// Blends this color `t` ticks of the way toward `other`; `t` is
    /// clamped into one unit first.
    pub fn lerp(self, other: Color, t: i64) -> (c: Color)
        ensures
            c == lerp_color_spec(self, other, t as int),
    {
        let tc: i64 = clamp_i64(t, 0, SCALE);
        proof {
            lemma_lerp_channel_bounds(self.r, other.r, tc as int);
            lemma_lerp_channel_bounds(self.g, other.g, tc as int);
            lemma_lerp_channel_bounds(self.b, other.b, tc as int);
            lemma_lerp_channel_bounds(self.a, other.a, tc as int);
        }
        Color {
            r: lerp_channel_exec(self.r, other.r, tc),
            g: lerp_channel_exec(self.g, other.g, tc),
            b: lerp_channel_exec(self.b, other.b, tc),
            a: lerp_channel_exec(self.a, other.a, tc),
        }
    }
}

/// A pixel buffer: `width * height` colors, row by row.
pub struct Image {
    /// Number of pixel columns.
    pub width: usize,
    /// Number of pixel rows.
    pub height: usize,
    /// The pixels, row by row.
    pub pixels: Vec<Color>,
}

impl Image {
    /// An image is well formed when it holds one color per pixel and
    /// its sides are positive and modest.
    pub open spec fn wf(self) -> bool {
        &&& self.pixels.len() == self.width * self.height
        &&& 1 <= self.width <= 4096
        &&& 1 <= self.height <= 4096
    }

    /// The color at column `x` of row `y`.
    pub open spec fn pixel(self, x: int, y: int) -> Color {
        self.pixels[y * self.width + x]
    }

    /// Creates an image of the given size with every pixel set to
    /// `fill`.
    pub fn new(width: usize, height: usize, fill: Color) -> (img: Image)
        requires
            1 <= width <= 4096,
            1 <= height <= 4096,
        ensures
            img.wf(),
            img.width == width,
            img.height == height,
            forall|x: int, y: int|
                0 <= x < width && 0 <= y < height ==> #[trigger] img.pixel(x, y) == fill,
    {
        proof {
            assert(width * height <= 4096 * 4096) by (nonlinear_arith)
                requires
                    width <= 4096,
                    height <= 4096,
            ;
        }
        let n: usize = width * height;
        let mut pixels: Vec<Color> = Vec::new();
        let mut i: usize = 0;
        while i < n
            invariant
                i <= n,
                pixels.len() == i,
                forall|j: int| 0 <= j < i ==> pixels[j] == fill,
            decreases n - i,
        {
            pixels.push(fill);
            i = i + 1;
        }
        let img = Image { width, height, pixels };
        proof {
            assert forall|x: int, y: int|
                0 <= x < width && 0 <= y < height implies #[trigger] img.pixel(x, y)
                == fill by {
                lemma_pixel_index_range(width as int, height as int, x, y);
            }
        }
        img
    }

    /// Reads the pixel at `(x, y)`.
    pub fn get_pixel(&self, x: usize, y: usize) -> (c: Color)
        requires
            self.wf(),
            x < self.width,
            y < self.height,
        ensures
            c == self.pixel(x as int, y as int),
    {
        proof {
            lemma_pixel_index_range(
                self.width as int,
                self.height as int,
                x as int,
                y as int,
            );
        }
        self.pixels[y * self.width + x]
    }

    /// Overwrites the pixel at `(x, y)`.
    pub fn set_pixel(&mut self, x: usize, y: usize, c: Color)
        requires
            old(self).wf(),
            x < old(self).width,
            y < old(self).height,
        ensures
            final(self).wf(),
            final(self).width == old(self).width,
            final(self).height == old(self).height,
            final(self).pixels@ == old(self).pixels@.update(
                y * old(self).width + x,
                c,
            ),
    {
        proof {
            lemma_pixel_index_range(
                self.width as int,
                self.height as int,
                x as int,
                y as int,
            );
        }
        let idx: usize = y * self.width + x;
        self.pixels[idx] = c;
    }
}

/// A pixel's flat index lies inside the buffer.
pub proof fn lemma_pixel_index_range(w: int, h: int, x: int, y: int)
    requires
        0 <= x < w,
        0 <= y < h,
    ensures
        0 <= y * w + x < w * h,
{
    assert(0 <= y * w + x < w * h) by (nonlinear_arith)
        requires
            0 <= x < w,
            0 <= y < h,
    ;
}

/// Two distinct pixel coordinates have distinct flat indices.
pub proof fn lemma_pixel_index_injective(w: int, x1: int, y1: int, x2: int, y2: int)
    requires
        0 <= x1 < w,
        0 <= x2 < w,
        y1 * w + x1 == y2 * w + x2,
    ensures
        x1 == x2 && y1 == y2,
{
    assert(x1 == x2 && y1 == y2) by (nonlinear_arith)
        requires
            0 <= x1 < w,
            0 <= x2 < w,
            y1 * w + x1 == y2 * w + x2,
    ;
}

/// A vertical run of pixels in column `x`, covering rows `[y0, y1)`.
#[derive(Clone, Copy, PartialEq, Eq, Structural, Debug)]
pub struct VerticalLine {
    /// Pixel column.
    pub x: i32,
    /// First row of the run.
    pub y0: i32,
    /// First row past the run.
    pub y1: i32,
}

impl VerticalLine {
    /// Creates the run in column `x` covering rows `[y0, y1)`.
    pub fn new(x: i32, y0: i32, y1: i32) -> (l: VerticalLine)
        ensures
            l.x == x,
            l.y0 == y0,
            l.y1 == y1,
    {
        VerticalLine { x, y0, y1 }
    }
}

/// Column index `v` clamped onto the image.
pub open spec fn clamped_col(img: Image, v: int) -> int {
    clamp_spec(v, 0, img.width - 1)
}

/// Row index `v` clamped onto the image.
pub open spec fn clamped_row(img: Image, v: int) -> int {
    clamp_spec(v, 0, img.height - 1)
}

/// Paints the run in one flat color.  The column and both row ends are
/// clamped to the buffer first, so every write lands inside it; pixels
/// outside the run keep their colors.
pub fn vertical_line(line: VerticalLine, output_image: &mut Image, color: Color)
    requires
        old(output_image).wf(),
    ensures
        final(output_image).wf(),
        final(output_image).width == old(output_image).width,
        final(output_image).height == old(output_image).height,
        forall|px: int, py: int|
            0 <= px < old(output_image).width && 0 <= py < old(output_image).height
                ==> #[trigger] final(output_image).pixel(px, py) == (if px == clamped_col(
                *old(output_image),
                line.x as int,
            ) && clamped_row(*old(output_image), line.y0 as int) <= py < clamped_row(
                *old(output_image),
                line.y1 as int,
            ) {
                color
            } else {
                old(output_image).pixel(px, py)
            }),
{
    let ghost img0 = *output_image;
    let w: usize = output_image.width;
    let h: usize = output_image.height;
    let x: usize = clamp_i64(line.x as i64, 0, (w - 1) as i64) as usize;
    let y0: usize = clamp_i64(line.y0 as i64, 0, (h - 1) as i64) as usize;
    let y1: usize = clamp_i64(line.y1 as i64, 0, (h - 1) as i64) as usize;
    let mut y: usize = y0;
    while y < y1
        invariant
            output_image.wf(),
            output_image.width == w,
            output_image.height == h,
            img0.wf(),
            img0.width == w,
            img0.height == h,
            x < w,
            x == clamped_col(img0, line.x as int),
            y0 == clamped_row(img0, line.y0 as int),
            y1 == clamped_row(img0, line.y1 as int),
            y0 <= y,
            y0 < y1 ==> y <= y1,
            y0 >= y1 ==> y == y0,
            y1 < h,
            forall|px: int, py: int|
                0 <= px < w && 0 <= py < h ==> #[trigger] output_image.pixel(px, py) == (
                if px == x && y0 <= py < y {
                    color
                } else {
                    img0.pixel(px, py)
                }),
        decreases y1 - y,
    {
        let ghost prev = *output_image;
        output_image.set_pixel(x, y, color);
        proof {
            assert forall|px: int, py: int|
                0 <= px < w && 0 <= py < h implies #[trigger] output_image.pixel(px, py)
                == (if px == x && y0 <= py < y + 1 {
                color
            } else {
                img0.pixel(px, py)
            }) by {
                lemma_pixel_index_range(w as int, h as int, px, py);
                lemma_pixel_index_range(w as int, h as int, x as int, y as int);
                if py * w + px == y * w + x {
                    lemma_pixel_index_injective(w as int, px, py, x as int, y as int);
                } else {
                    assert(output_image.pixel(px, py) == prev.pixel(px, py));
                }
            }
        }
        y = y + 1;
    }
}

/// Texture row sampled for screen row `py` of a wall run: linear
/// interpolation from the run's vertical extent back into the texture
/// band.
pub open spec fn texture_row(wall: VerticalLine, tex: VerticalLine, py: int) -> int {
    tex.y0 + ((py - wall.y0) * (tex.y1 - tex.y0)) / (wall.y1 - wall.y0)
}

/// Paints the run by sampling one texture column, blending every sample
/// toward the background color by the fog weight.  Writes are clamped
/// to the buffer; pixels outside the run keep their colors.
pub fn vertical_textured_line_with_fog(
    wall_line: VerticalLine,
    output_image: &mut Image,
    texture: &Image,
    texture_line: VerticalLine,
    fog: i64,
)
    requires
        old(output_image).wf(),
        texture.wf(),
        0 <= texture_line.y0 < texture_line.y1 <= texture.height,
    ensures
        final(output_image).wf(),
        final(output_image).width == old(output_image).width,
        final(output_image).height == old(output_image).height,
        forall|px: int, py: int|
            0 <= px < old(output_image).width && 0 <= py < old(output_image).height
                ==> #[trigger] final(output_image).pixel(px, py) == (if px == clamped_col(
                *old(output_image),
                wall_line.x as int,
            ) && clamped_row(*old(output_image), wall_line.y0 as int) <= py < clamped_row(
                *old(output_image),
                wall_line.y1 as int,
            ) {
                lerp_color_spec(
                    texture.pixel(
                        clamped_col(*texture, texture_line.x as int),
                        texture_row(wall_line, texture_line, py),
                    ),
                    background_color_spec(),
                    fog as int,
                )
            } else {
                old(output_image).pixel(px, py)
            }),
{
    let ghost img0 = *output_image;
    let w: usize = output_image.width;
    let h: usize = output_image.height;
    let x: usize = clamp_i64(wall_line.x as i64, 0, (w - 1) as i64) as usize;
    let dy0: usize = clamp_i64(wall_line.y0 as i64, 0, (h - 1) as i64) as usize;
    let dy1: usize = clamp_i64(wall_line.y1 as i64, 0, (h - 1) as i64) as usize;
    let tx: usize = clamp_i64(texture_line.x as i64, 0, (texture.width - 1) as i64) as usize;

    let wy0: i64 = wall_line.y0 as i64;
    let wy1: i64 = wall_line.y1 as i64;
    let hh: i64 = wy1 - wy0;
    let band: i64 = (texture_line.y1 as i64) - (texture_line.y0 as i64);

    let background = background_color();

    let mut y: usize = dy0;
    while y < dy1
        invariant
            output_image.wf(),
            output_image.width == w,
            output_image.height == h,
            img0.wf(),
            img0.width == w,
            img0.height == h,
            texture.wf(),
            x < w,
            tx < texture.width,
            x == clamped_col(img0, wall_line.x as int),
            dy0 == clamped_row(img0, wall_line.y0 as int),
            dy1 == clamped_row(img0, wall_line.y1 as int),
            tx == clamped_col(*texture, texture_line.x as int),
            wy0 == wall_line.y0 && wy1 == wall_line.y1,
            band == texture_line.y1 - texture_line.y0,
            0 <= texture_line.y0 < texture_line.y1 <= texture.height,
            hh == wy1 - wy0,
            dy0 < dy1 ==> wy0 <= dy0 && dy1 <= wy1 && hh > 0,
            dy0 <= y,
            dy0 < dy1 ==> y <= dy1,
            dy0 >= dy1 ==> y == dy0,
            dy1 < h,
            background == background_color_spec(),
            forall|px: int, py: int|
                0 <= px < w && 0 <= py < h ==> #[trigger] output_image.pixel(px, py) == (
                if px == x && dy0 <= py < y {
                    lerp_color_spec(
                        texture.pixel(tx as int, texture_row(wall_line, texture_line, py)),
                        background_color_spec(),
                        fog as int,
                    )
                } else {
                    img0.pixel(px, py)
                }),
        decreases dy1 - y,
    {
        let h_diff: i64 = (y as i64) - wy0;
        proof {
            assert(0 <= h_diff < hh);
            assert(0 <= h_diff * band < hh * band && h_diff * band <= 0x2_0000_0000_0000)
                by (nonlinear_arith)
                requires
                    0 <= h_diff < hh,
                    0 < band <= 4096,
                    hh <= 0x1_0000_0000,
            ;
            vstd::arithmetic::div_mod::lemma_div_pos_is_pos(h_diff * band, hh as int);
            vstd::arithmetic::div_mod::lemma_multiply_divide_lt(
                h_diff * band,
                hh as int,
                band as int,
            );
        }
        let ty_off: i64 = crate::fixed::div_floor(h_diff * band, hh);
        let ty: usize = ((texture_line.y0 as i64) + ty_off) as usize;
        let sample: Color = texture.get_pixel(tx, ty);
        let shaded: Color = sample.lerp(background, fog);
        let ghost prev = *output_image;
        output_image.set_pixel(x, y, shaded);
        proof {
            assert(ty as int == texture_row(wall_line, texture_line, y as int));
            assert forall|px: int, py: int|
                0 <= px < w && 0 <= py < h implies #[trigger] output_image.pixel(px, py)
                == (if px == x && dy0 <= py < y + 1 {
                lerp_color_spec(
                    texture.pixel(tx as int, texture_row(wall_line, texture_line, py)),
                    background_color_spec(),
                    fog as int,
                )
            } else {
                img0.pixel(px, py)
            }) by {
                lemma_pixel_index_range(w as int, h as int, px, py);
                lemma_pixel_index_range(w as int, h as int, x as int, y as int);
                if py * w + px == y * w + x {
                    lemma_pixel_index_injective(w as int, px, py, x as int, y as int);
                } else {
                    assert(output_image.pixel(px, py) == prev.pixel(px, py));
                }
            }
        }
        y = y + 1;
    }
}

/// Texture column sampled for a hit: the wall coordinate scaled to the
/// atlas width, rounded to the nearest column.
pub open spec fn texture_x_spec(wall_coord: int, tex_width: int) -> int {
    (wall_coord * tex_width + (SCALE as int) / 2) / (SCALE as int)
}

/// First row of the atlas band of material `wall_type`.
pub open spec fn texture_band_y0(wall_type: int, tex_height: int) -> int {
    (tex_height / (crate::grid::NUM_TEXTURES as int)) * (wall_type - 1)
}

/// Corrected distance of a hit seen from facing `(fx, fy)` along `ray`.
pub open spec fn hit_corrected(h: RayHit, fx: int, fy: int, ray: Ray) -> int {
    crate::project::corrected_distance_spec(
        h.world_distance as int,
        crate::project::cos_between_spec(fx, fy, ray.dir_x as int, ray.dir_y as int),
    )
}

/// The color pixel `(px, py)` shows after one column is rendered, given
/// its prior color `base`.  Columns other than the run's own keep
/// `base`; within the column the screen splits into sky above the wall
/// run, the fog-shaded texture sample across it, and floor below it,
/// down to (but not including) the last row.  Without a hit the split
/// is sky above the horizon and floor below it.
pub open spec fn column_pixel(
    width: int,
    height: int,
    texture: Image,
    col: int,
    ray: Ray,
    hit: Option<RayHit>,
    fx: int,
    fy: int,
    horizon_y: int,
    px: int,
    py: int,
    base: Color,
) -> Color {
    if px != clamp_spec(col, 0, width - 1) {
        base
    } else {
        match hit {
            Option::Some(h) => {
                let z = hit_corrected(h, fx, fy, ray);
                let hgt = crate::project::wall_height_spec(z);
                let y0 = horizon_y - hgt / 2;
                let y1 = y0 + hgt;
                let fog = crate::project::fog_weight_spec(
                    if z < 0 {
                        0
                    } else {
                        z
                    },
                );
                let band = texture.height as int / (crate::grid::NUM_TEXTURES as int);
                let ty0 = band * (h.wall_type - 1);
                if py < clamp_spec(y0, 0, height - 1) {
                    background_color_spec()
                } else if py < clamp_spec(y1, 0, height - 1) {
                    lerp_color_spec(
                        texture.pixel(
                            clamp_spec(
                                texture_x_spec(h.wall_coord as int, texture.width as int),
                                0,
                                texture.width - 1,
                            ),
                            ty0 + ((py - y0) * band) / hgt,
                        ),
                        background_color_spec(),
                        fog,
                    )
                } else if py < height - 1 {
                    ground_color_spec()
                } else {
                    base
                }
            },
            Option::None => {
                if py < clamp_spec(horizon_y, 0, height - 1) {
                    background_color_spec()
                } else if py < height - 1 {
                    ground_color_spec()
                } else {
                    base
                }
            },
        }
    }
}

/// Renders one screen column from its ray's outcome: sky, the
/// perspective-projected and fog-shaded wall run if the ray hit, and
/// floor.
pub fn render_column(
    output_image: &mut Image,
    texture: &Image,
    col: i32,
    ray: &Ray,
    hit: &Option<RayHit>,
    fx: i64,
    fy: i64,
    horizon_y: i64,
)
    requires
        old(output_image).wf(),
        texture.wf(),
        texture.height >= crate::grid::NUM_TEXTURES,
        ray.wf(),
        -SCALE <= fx <= SCALE,
        -SCALE <= fy <= SCALE,
        -0x100_0000 <= horizon_y <= 0x100_0000,
        (hit matches Option::Some(h) ==> 0 <= h.world_distance
            < (crate::ray::MAX_DIST_GU_FP + SCALE * SCALE) * crate::grid::TILE_SIZE
            && 0 <= h.wall_coord < SCALE && 1 <= h.wall_type <= crate::grid::NUM_TEXTURES),
    ensures
        final(output_image).wf(),
        final(output_image).width == old(output_image).width,
        final(output_image).height == old(output_image).height,
        forall|px: int, py: int|
            0 <= px < old(output_image).width && 0 <= py < old(output_image).height
                ==> #[trigger] final(output_image).pixel(px, py) == column_pixel(
                old(output_image).width as int,
                old(output_image).height as int,
                *texture,
                col as int,
                *ray,
                *hit,
                fx as int,
                fy as int,
                horizon_y as int,
                px,
                py,
                old(output_image).pixel(px, py),
            ),
{
    let ghost img0 = *output_image;
    let w: usize = output_image.width;
    let h: usize = output_image.height;
    match hit {
        Option::Some(hr) => {
            let c: i64 = crate::project::cos_between(fx, fy, ray.dir_x, ray.dir_y);
            let z: i64 = crate::project::corrected_distance(hr.world_distance, c);
            let hgt: i64 = crate::project::wall_height(z);
            let half: i64 = crate::fixed::div_floor(hgt, 2);
            let y0: i64 = horizon_y - half;
            let y1: i64 = y0 + hgt;
            let zpos: i64 = if z < 0 {
                0
            } else {
                z
            };
            let fog: i64 = crate::project::fog_weight(zpos);

            let tw: i64 = texture.width as i64;
            proof {
                assert(0 <= hr.wall_coord * tw <= 0x1000_0000) by (nonlinear_arith)
                    requires
                        0 <= hr.wall_coord < SCALE,
                        0 < tw <= 4096,
                        SCALE == 65536,
                ;
                crate::fixed::lemma_div_abs_bound(
                    hr.wall_coord * tw + (SCALE as int) / 2,
                    SCALE as int,
                    0x1001_0000,
                );
            }
            let tx: i64 = crate::fixed::div_floor(hr.wall_coord * tw + SCALE / 2, SCALE);
            let band: usize = texture.height / (crate::grid::NUM_TEXTURES as usize);
            proof {
                assert(band * 3 <= texture.height && 1 <= band) by {
                    assert(band == texture.height as int / 3);
                    vstd::arithmetic::div_mod::lemma_fundamental_div_mod(
                        texture.height as int,
                        3,
                    );
                    vstd::arithmetic::div_mod::lemma_mod_bound(texture.height as int, 3);
                    vstd::arithmetic::div_mod::lemma_div_is_ordered(
                        3,
                        texture.height as int,
                        3,
                    );
                }
                assert(band * ((hr.wall_type - 1) as usize) + band <= texture.height)
                    by (nonlinear_arith)
                    requires
                        band * 3 <= texture.height,
                        1 <= hr.wall_type <= 3,
                ;
            }
            let ty0: usize = band * ((hr.wall_type - 1) as usize);
            let ty1: usize = ty0 + band;

            let ghost cc = clamp_spec(col as int, 0, w - 1);

            let sky = VerticalLine::new(col, 0, y0 as i32);
            vertical_line(sky, output_image, background_color());
            let ghost img_sky = *output_image;

            let wall = VerticalLine::new(col, y0 as i32, y1 as i32);
            let tex_line = VerticalLine::new(tx as i32, ty0 as i32, ty1 as i32);
            vertical_textured_line_with_fog(wall, output_image, texture, tex_line, fog);
            let ghost img_wall = *output_image;

            let floor = VerticalLine::new(col, y1 as i32, h as i32);
            vertical_line(floor, output_image, ground_color());

            proof {
                assert forall|px: int, py: int|
                    0 <= px < w && 0 <= py < h implies #[trigger] output_image.pixel(
                    px,
                    py,
                ) == column_pixel(
                    w as int,
                    h as int,
                    *texture,
                    col as int,
                    *ray,
                    Option::Some(*hr),
                    fx as int,
                    fy as int,
                    horizon_y as int,
                    px,
                    py,
                    img0.pixel(px, py),
                ) by {
                    assert(img_sky.pixel(px, py) == (if px == cc && 0 <= py < clamp_spec(
                        y0 as int,
                        0,
                        h - 1,
                    ) {
                        background_color_spec()
                    } else {
                        img0.pixel(px, py)
                    }));
                    assert(img_wall.pixel(px, py) == (if px == cc && clamp_spec(
                        y0 as int,
                        0,
                        h - 1,
                    ) <= py < clamp_spec(y1 as int, 0, h - 1) {
                        lerp_color_spec(
                            texture.pixel(
                                clamped_col(*texture, tx as int),
                                texture_row(wall, tex_line, py),
                            ),
                            background_color_spec(),
                            fog as int,
                        )
                    } else {
                        img_sky.pixel(px, py)
                    }));
                    assert(output_image.pixel(px, py) == (if px == cc && clamp_spec(
                        y1 as int,
                        0,
                        h - 1,
                    ) <= py < h - 1 {
                        ground_color_spec()
                    } else {
                        img_wall.pixel(px, py)
                    }));
                }
            }
        },
        Option::None => {
            let ghost cc = clamp_spec(col as int, 0, w - 1);
            let sky = VerticalLine::new(col, 0, horizon_y as i32);
            vertical_line(sky, output_image, background_color());
            let ghost img_sky = *output_image;
            let floor = VerticalLine::new(col, horizon_y as i32, h as i32);
            vertical_line(floor, output_image, ground_color());
            proof {
                assert forall|px: int, py: int|
                    0 <= px < w && 0 <= py < h implies #[trigger] output_image.pixel(
                    px,
                    py,
                ) == column_pixel(
                    w as int,
                    h as int,
                    *texture,
                    col as int,
                    *ray,
                    Option::None,
                    fx as int,
                    fy as int,
                    horizon_y as int,
                    px,
                    py,
                    img0.pixel(px, py),
                ) by {
                    assert(img_sky.pixel(px, py) == (if px == cc && 0 <= py < clamp_spec(
                        horizon_y as int,
                        0,
                        h - 1,
                    ) {
                        background_color_spec()
                    } else {
                        img0.pixel(px, py)
                    }));
                    assert(output_image.pixel(px, py) == (if px == cc && clamp_spec(
                        horizon_y as int,
                        0,
                        h - 1,
                    ) <= py < h - 1 {
                        ground_color_spec()
                    } else {
                        img_sky.pixel(px, py)
                    }));
                }
            }
        },
    }
}

/// Columns revealed per second by the sweep effect.
pub const RAYS_PER_SECOND: i64 = 256;

/// Sweep counter after one frame: it rises with elapsed time at
/// `RAYS_PER_SECOND` columns per second and saturates at the full
/// column count, in column ticks.
pub open spec fn reveal_after(current: int, delta: int) -> int {
    clamp_spec(
        current + delta * RAYS_PER_SECOND,
        0,
        (crate::ray::NUM_RAYS as int) * SCALE,
    )
}

/// Advances the sweep counter by one frame's duration.
pub fn advance_reveal(current_fp: i64, delta_fp: i64) -> (n: i64)
    requires
        0 <= current_fp <= crate::ray::NUM_RAYS * SCALE,
        0 <= delta_fp <= crate::player::MAX_DELTA_FP,
    ensures
        n == reveal_after(current_fp as int, delta_fp as int),
        0 <= n <= crate::ray::NUM_RAYS * SCALE,
{
    clamp_i64(current_fp + delta_fp * RAYS_PER_SECOND, 0, crate::ray::NUM_RAYS * SCALE)
}

/// Number of whole columns the sweep counter reveals.
pub fn revealed_columns(n_fp: i64) -> (n: u64)
    requires
        0 <= n_fp <= crate::ray::NUM_RAYS * SCALE,
    ensures
        n == n_fp as int / (SCALE as int),
        n <= crate::ray::NUM_RAYS,
{
    proof {
        vstd::arithmetic::div_mod::lemma_div_pos_is_pos(n_fp as int, SCALE as int);
        vstd::arithmetic::div_mod::lemma_div_is_ordered(
            n_fp as int,
            crate::ray::NUM_RAYS * (SCALE as int),
            SCALE as int,
        );
        vstd::arithmetic::div_mod::lemma_div_multiples_vanish(
            crate::ray::NUM_RAYS as int,
            SCALE as int,
        );
        assert(crate::ray::NUM_RAYS * (SCALE as int) == (SCALE as int) * (
        crate::ray::NUM_RAYS as int)) by (nonlinear_arith);
    }
    crate::fixed::div_floor(n_fp, SCALE) as u64
}

/// Renders one frame: casts one ray per revealed column from the
/// camera pose and paints each column; columns beyond `num_rays` keep
/// their previous contents, which is what the sweep reveal shows.
pub fn render_scene(
    output_image: &mut Image,
    texture: &Image,
    grid: &Vec<u8>,
    player: &crate::player::Player,
    tan_v: i64,
    num_rays: u64,
)
    requires
        old(output_image).wf(),
        old(output_image).width == crate::project::SCREEN_WIDTH,
        old(output_image).height == crate::project::SCREEN_HEIGHT,
        texture.wf(),
        texture.height >= crate::grid::NUM_TEXTURES,
        crate::grid::grid_wf(grid@),
        player.wf(),
        -1024 * SCALE <= tan_v <= 1024 * SCALE,
        num_rays <= crate::ray::NUM_RAYS,
    ensures
        final(output_image).wf(),
        final(output_image).width == old(output_image).width,
        final(output_image).height == old(output_image).height,
        forall|px: int, py: int|
            0 <= px < old(output_image).width && 0 <= py < old(output_image).height
                ==> #[trigger] final(output_image).pixel(px, py) == (if px < num_rays {
                column_pixel(
                    old(output_image).width as int,
                    old(output_image).height as int,
                    *texture,
                    px,
                    crate::ray::column_ray(*player, px),
                    crate::ray::cast_option(crate::ray::column_ray(*player, px), grid@),
                    player.dir_x as int,
                    player.dir_y as int,
                    crate::project::horizon_spec(tan_v as int),
                    px,
                    py,
                    old(output_image).pixel(px, py),
                )
            } else {
                old(output_image).pixel(px, py)
            }),
{
    let ghost img0 = *output_image;
    let w: usize = output_image.width;
    let h: usize = output_image.height;
    let hz: i64 = crate::project::horizon(tan_v);
    let rays = player.cast_rays(grid, num_rays);
    let mut i: usize = 0;
    while i < rays.len()
        invariant
            output_image.wf(),
            output_image.width == w,
            output_image.height == h,
            img0.wf(),
            img0.width == w,
            img0.height == h,
            w == crate::project::SCREEN_WIDTH,
            h == crate::project::SCREEN_HEIGHT,
            texture.wf(),
            texture.height >= crate::grid::NUM_TEXTURES,
            crate::grid::grid_wf(grid@),
            player.wf(),
            hz == crate::project::horizon_spec(tan_v as int),
            -0x100_0000 <= hz <= 0x100_0000,
            rays.len() == num_rays,
            num_rays <= crate::ray::NUM_RAYS,
            i <= rays.len(),
            forall|j: int|
                0 <= j < num_rays ==> (#[trigger] rays[j]).0 == crate::ray::column_ray(
                    *player,
                    j,
                ) && rays[j].0.wf() && crate::ray::cast_result_ok(
                    rays[j].0,
                    grid@,
                    rays[j].1,
                ) && rays[j].1 == crate::ray::cast_option(rays[j].0, grid@),
            forall|px: int, py: int|
                0 <= px < w && 0 <= py < h ==> #[trigger] output_image.pixel(px, py) == (
                if px < i {
                    column_pixel(
                        w as int,
                        h as int,
                        *texture,
                        px,
                        crate::ray::column_ray(*player, px),
                        crate::ray::cast_option(
                            crate::ray::column_ray(*player, px),
                            grid@,
                        ),
                        player.dir_x as int,
                        player.dir_y as int,
                        crate::project::horizon_spec(tan_v as int),
                        px,
                        py,
                        img0.pixel(px, py),
                    )
                } else {
                    img0.pixel(px, py)
                }),
        decreases rays.len() - i,
    {
        let pair = &rays[i];
        proof {
            if pair.1 is Some {
                let hrec = pair.1->Some_0;
                assert(hrec.wall_type == crate::grid::wall_at(
                    grid@,
                    pair.0.cast_outcome(grid@)->Hit_cx,
                    pair.0.cast_outcome(grid@)->Hit_cy,
                ));
                assert(hrec.wall_type <= crate::grid::NUM_TEXTURES);
            }
        }
        let ghost before = *output_image;
        render_column(
            output_image,
            texture,
            i as i32,
            &pair.0,
            &pair.1,
            player.dir_x,
            player.dir_y,
            hz,
        );
        proof {
            assert forall|px: int, py: int|
                0 <= px < w && 0 <= py < h implies #[trigger] output_image.pixel(px, py)
                == (if px < i + 1 {
                column_pixel(
                    w as int,
                    h as int,
                    *texture,
                    px,
                    crate::ray::column_ray(*player, px),
                    crate::ray::cast_option(crate::ray::column_ray(*player, px), grid@),
                    player.dir_x as int,
                    player.dir_y as int,
                    crate::project::horizon_spec(tan_v as int),
                    px,
                    py,
                    img0.pixel(px, py),
                )
            } else {
                img0.pixel(px, py)
            }) by {
                assert(clamp_spec(i as int, 0, w - 1) == i as int);
                assert(output_image.pixel(px, py) == column_pixel(
                    w as int,
                    h as int,
                    *texture,
                    i as int,
                    pair.0,
                    pair.1,
                    player.dir_x as int,
                    player.dir_y as int,
                    hz as int,
                    px,
                    py,
                    before.pixel(px, py),
                ));
            }
        }
        i = i + 1;
    }
}

/// Computes one blended channel.
fn lerp_channel_exec(a: u8, b: u8, t: i64) -> (r: u8)
    requires
        0 <= t <= SCALE,
    ensures
        r == lerp_channel(a, b, t as int),
{
    proof {
        lemma_lerp_channel_bounds(a, b, t as int);
        assert(-255 * (SCALE as int) <= (b - a) * t <= 255 * SCALE) by (nonlinear_arith)
            requires
                -255 <= b - a <= 255,
                0 <= t <= SCALE,
        ;
    }
    let d: i64 = (b as i64) - (a as i64);
    let q: i64 = crate::fixed::div_floor(d * t, SCALE);
    ((a as i64) + q) as u8
}

} // verus!
