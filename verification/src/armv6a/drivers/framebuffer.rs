//! The framebuffer that the VideoCore hands out, and a painter for it.

use crate::armv6a::drivers::mailbox::{Mail, with_channel, with_data_in_place};
use crate::armv6a::memory::AddressTranslation;
use embedded_graphics::pixelcolor::{Rgb888, RgbColor};
use vstd::prelude::*;
use vstd::math::{abs, max};

verus! {

pub const WIDTH: u32 = 640;

pub const HEIGHT: u32 = 480;

/// A pixel of the 24-bit framebuffer, stored blue first.
#[derive(Clone, Copy)]
pub struct Pixel {
    pub blue: u8,
    pub green: u8,
    pub red: u8,
}

/// The pixel of the colour `0xRRGGBB`, higher bits left out.
pub open spec fn pixel_of(rgb: int) -> Pixel {
    Pixel {
        blue: (rgb % 0x100) as u8,
        green: ((rgb / 0x100) % 0x100) as u8,
        red: ((rgb / 0x1_0000) % 0x100) as u8,
    }
}

/// The 24-bit colour `0xRRGGBB` of a pixel.
pub open spec fn pixel_colour(p: Pixel) -> int {
    p.red * 0x1_0000 + p.green * 0x100 + p.blue
}

impl Pixel {
    /// The pixel of the colour `0xRRGGBB`; higher bits are ignored.
    pub fn hex(rgb: u32) -> (p: Pixel)
        ensures
            p == pixel_of(rgb as int),
    {
        assert(rgb as u8 == rgb % 0x100) by (bit_vector);
        assert((rgb >> 8u32) as u8 == (rgb / 0x100) % 0x100) by (bit_vector);
        assert((rgb >> 16u32) as u8 == (rgb / 0x1_0000) % 0x100) by (bit_vector);
        Pixel { blue: rgb as u8, green: (rgb >> 8) as u8, red: (rgb >> 16) as u8 }
    }

    /// The colour `0xRRGGBB` of the pixel.
    pub fn to_u32(self) -> (c: u32)
        ensures
            c == pixel_colour(self),
    {
        let b = self.blue as u32;
        let g = self.green as u32;
        let r = self.red as u32;
        assert(g << 8u32 == g * 0x100) by (bit_vector)
            requires
                g < 0x100,
        ;
        assert(r << 16u32 == r * 0x1_0000) by (bit_vector)
            requires
                r < 0x100,
        ;
        b + (g << 8) + (r << 16)
    }
}

/// Reading a colour back from the pixel made of it gives its low 24 bits.
pub proof fn lemma_hex_to_u32(rgb: u32)
    ensures
        pixel_colour(pixel_of(rgb as int)) == rgb % 0x100_0000,
{
}

/// Making a pixel of a pixel's colour gives the pixel back, and the colour
/// takes 24 bits.
pub proof fn lemma_to_u32_hex(p: Pixel)
    ensures
        pixel_of(pixel_colour(p)) == p,
        0 <= pixel_colour(p) < 0x100_0000,
{
}

/// A framebuffer: `rows` rows of `columns` pixels, `pitch` bytes apart.
pub struct FrameBuffer<'a> {
    pitch: u32,
    rows: u32,
    columns: u32,
    buffer: &'a mut [Pixel],
}

/// Draws on a framebuffer.
pub struct Painter<'a> {
    fb: &'a mut FrameBuffer<'a>,
}

impl<'a> FrameBuffer<'a> {
    pub closed spec fn pitch(&self) -> u32 {
        self.pitch
    }

    pub closed spec fn rows(&self) -> u32 {
        self.rows
    }

    pub closed spec fn columns(&self) -> u32 {
        self.columns
    }

    /// The pixels, row after row.
    pub closed spec fn pixels(&self) -> Seq<Pixel> {
        self.buffer@
    }

    pub fn unitialized() -> (fb: FrameBuffer<'a>)
        ensures
            fb.pitch() == 0,
            fb.rows() == 0,
            fb.columns() == 0,
            fb.pixels() == Seq::<Pixel>::empty(),
    {
        FrameBuffer { buffer: &mut [], pitch: 0, rows: 0, columns: 0 }
    }

    pub fn new(pitch: u32, rows: u32, columns: u32, buffer: &'a mut [Pixel]) -> (fb: FrameBuffer<'a>)
        ensures
            fb.pitch() == pitch,
            fb.rows() == rows,
            fb.columns() == columns,
            fb.pixels() == old(buffer)@,
    {
        FrameBuffer { pitch, rows, buffer, columns }
    }

    pub fn get_pitch(&self) -> (r: u32)
        ensures
            r == self.pitch(),
    {
        self.pitch
    }

    pub fn get_rows(&self) -> (r: u32)
        ensures
            r == self.rows(),
    {
        self.rows
    }

    pub fn get_buffer(&mut self) -> (r: &mut [Pixel])
        ensures
            r@ == old(self).pixels(),
            final(r)@ == final(self).pixels(),
            final(self).pitch() == old(self).pitch(),
            final(self).rows() == old(self).rows(),
            final(self).columns() == old(self).columns(),
    {
        self.buffer
    }

    pub fn get_columns(&mut self) -> (r: u32)
        ensures
            r == old(self).columns(),
            *final(self) == *old(self),
    {
        self.columns
    }
}

/// Index of the pixel at column `x` of row `y`.
pub open spec fn pixel_index(x: int, y: int, columns: int) -> int {
    y * columns + x
}

/// The painter can set the pixel at (`x`, `y`): the coordinates are not
/// negative, and the index fits a `u32` and lies inside the buffer.
pub open spec fn drawable(x: int, y: int, columns: int, len: int) -> bool {
    &&& 0 <= x
    &&& 0 <= y
    &&& pixel_index(x, y, columns) <= u32::MAX
    &&& pixel_index(x, y, columns) < len
}

/// `pixels` with each of `points` set to `colour`, in order.
pub open spec fn paint(pixels: Seq<Pixel>, points: Seq<(int, int)>, columns: int, colour: Pixel) -> Seq<Pixel>
    decreases points.len(),
{
    if points.len() == 0 {
        pixels
    } else {
        let p = points.last();
        paint(pixels, points.drop_last(), columns, colour).update(pixel_index(p.0, p.1, columns), colour)
    }
}

/// One step of Bresenham's line walk, from (`x`, `y`) with error `err`, for
/// a line of horizontal extent `dx`, negated vertical extent `dy`, and
/// directions `sx` and `sy`.
pub open spec fn line_step(x: int, y: int, err: int, dx: int, dy: int, sx: int, sy: int) -> (int, int, int) {
    let e2 = 2 * err;
    let x2 = if e2 >= dy { x + sx } else { x };
    let err1 = if e2 >= dy { err + dy } else { err };
    let y2 = if e2 <= dx { y + sy } else { y };
    let err2 = if e2 <= dx { err1 + dx } else { err1 };
    (x2, y2, err2)
}

/// The points Bresenham's walk visits from (`x`, `y`) on to (`x1`, `y1`).
pub open spec fn line_walk(
    x: int,
    y: int,
    err: int,
    x1: int,
    y1: int,
    dx: int,
    dy: int,
    sx: int,
    sy: int,
) -> Seq<(int, int)>
    decreases abs(x1 - x) + abs(y1 - y),
{
    if x == x1 && y == y1 {
        seq![(x, y)]
    } else {
        let (x2, y2, err2) = line_step(x, y, err, dx, dy, sx, sy);
        if abs(x1 - x2) + abs(y1 - y2) < abs(x1 - x) + abs(y1 - y) {
            seq![(x, y)] + line_walk(x2, y2, err2, x1, y1, dx, dy, sx, sy)
        } else {
            seq![(x, y)]
        }
    }
}

/// Horizontal extent of a line.
pub open spec fn line_dx(x0: int, x1: int) -> int {
    abs(x1 - x0) as int
}

/// Vertical extent of a line, negated, as Bresenham's algorithm keeps it.
pub open spec fn line_dy(y0: int, y1: int) -> int {
    -(abs(y1 - y0) as int)
}

/// Direction of a line's steps along one axis.
pub open spec fn line_dir(a0: int, a1: int) -> int {
    if a0 < a1 { 1 } else { -1 }
}

/// The points of the line from (`x0`, `y0`) to (`x1`, `y1`), in the order
/// Bresenham's algorithm draws them.
pub open spec fn line_points(x0: int, y0: int, x1: int, y1: int) -> Seq<(int, int)> {
    let dx = line_dx(x0, x1);
    let dy = line_dy(y0, y1);
    line_walk(x0, y0, dx + dy, x1, y1, dx, dy, line_dir(x0, x1), line_dir(y0, y1))
}

/// `v` lies between `a` and `b`, either way round.
pub open spec fn between(v: int, a: int, b: int) -> bool {
    (a <= v <= b) || (b <= v <= a)
}

/// What holds at every point of a walk from (`x0`, `y0`) to (`x1`, `y1`):
/// `i` steps have been taken along x and `j` along y, and the error term
/// records them.
pub open spec fn walk_state(x: int, y: int, err: int, x0: int, y0: int, x1: int, y1: int) -> bool {
    let dx = line_dx(x0, x1);
    let dy = line_dy(y0, y1);
    let i = abs(x - x0) as int;
    let j = abs(y - y0) as int;
    &&& between(x, x0, x1)
    &&& between(y, y0, y1)
    &&& err == dx * (j + 1) + dy * (i + 1)
    &&& 2 * dy <= err <= 2 * dx
    &&& (dx >= -dy ==> 2 * err >= dy)
    &&& (-dy >= dx ==> 2 * err <= dx)
    &&& (dx >= -dy ==> dx + 2 * dy <= 2 * err <= 3 * dx + 2 * dy)
    &&& (-dy >= dx ==> 2 * dx + 3 * dy <= 2 * err <= 2 * dx + dy)
}

/// The pixel `p` is the one nearest to the true line from (`x0`, `y0`) to
/// (`x1`, `y1`) in its column (for a line at most 45 degrees steep) or in
/// its row (for a steeper line): its distance from the line along the
/// shorter axis, scaled by the longer extent, is at most half of it.
pub open spec fn nearest_to_line(p: (int, int), x0: int, y0: int, x1: int, y1: int) -> bool {
    let dx = abs(x1 - x0) as int;
    let d = abs(y1 - y0) as int;
    let i = abs(p.0 - x0) as int;
    let j = abs(p.1 - y0) as int;
    &&& dx >= d ==> 2 * abs(j * dx - i * d) <= dx
    &&& d >= dx ==> 2 * abs(i * d - j * dx) <= d
}

/// Every point of a walk lies nearest to the true line.
proof fn lemma_walk_state_nearest(x: int, y: int, err: int, x0: int, y0: int, x1: int, y1: int)
    requires
        walk_state(x, y, err, x0, y0, x1, y1),
    ensures
        nearest_to_line((x, y), x0, y0, x1, y1),
{
    let dx = line_dx(x0, x1);
    let dy = line_dy(y0, y1);
    let d = -dy;
    let i = abs(x - x0) as int;
    let j = abs(y - y0) as int;
    assert(dx * (j + 1) + dy * (i + 1) == j * dx - i * d + dx - d) by (nonlinear_arith)
        requires
            d == -dy,
    ;
    assert(i * d - j * dx == -(j * dx - i * d)) by (nonlinear_arith);
}

proof fn lemma_walk_start(x0: int, y0: int, x1: int, y1: int)
    ensures
        walk_state(x0, y0, line_dx(x0, x1) + line_dy(y0, y1), x0, y0, x1, y1),
{
    let dx = line_dx(x0, x1);
    let dy = line_dy(y0, y1);
    assert(dx * (0 + 1) + dy * (0 + 1) == dx + dy) by (nonlinear_arith);
}

/// A step from a walk state that is not the end moves one pixel closer to
/// the end along x, y or both, and reaches another walk state.
proof fn lemma_walk_step(x: int, y: int, err: int, x0: int, y0: int, x1: int, y1: int)
    requires
        walk_state(x, y, err, x0, y0, x1, y1),
        !(x == x1 && y == y1),
    ensures
        ({
            let (x2, y2, err2) = line_step(x, y, err, line_dx(x0, x1), line_dy(y0, y1), line_dir(x0, x1), line_dir(y0, y1));
            &&& walk_state(x2, y2, err2, x0, y0, x1, y1)
            &&& abs(x1 - x2) + abs(y1 - y2) < abs(x1 - x) + abs(y1 - y)
            &&& x2 == x || x2 == x + line_dir(x0, x1)
            &&& y2 == y || y2 == y + line_dir(y0, y1)
            &&& (line_dx(x0, x1) >= -line_dy(y0, y1) ==> x2 == x + line_dir(x0, x1))
            &&& (-line_dy(y0, y1) >= line_dx(x0, x1) ==> y2 == y + line_dir(y0, y1))
        }),
{
    let dx = line_dx(x0, x1);
    let dy = line_dy(y0, y1);
    let big_d = -dy;
    let i = abs(x - x0) as int;
    let j = abs(y - y0) as int;
    let e2 = 2 * err;
    assert(0 <= i <= dx);
    assert(0 <= j <= big_d);
    if e2 >= dy {
        // The walk does not step past the end column.
        if i == dx {
            assert(j < big_d);
            assert(dx * (j + 1) + dy * (i + 1) <= dy) by (nonlinear_arith)
                requires
                    i == dx,
                    dy == -big_d,
                    0 <= j,
                    j + 1 <= big_d,
                    0 <= dx,
            ;
            assert(false);
        }
    }
    if e2 <= dx {
        // The walk does not step past the end row.
        if j == big_d {
            assert(i < dx);
            assert(dx * (j + 1) + dy * (i + 1) >= dx) by (nonlinear_arith)
                requires
                    j == big_d,
                    dy == -big_d,
                    0 <= i,
                    i + 1 <= dx,
                    0 <= big_d,
            ;
            assert(false);
        }
    }
    let sx = line_dir(x0, x1);
    let sy = line_dir(y0, y1);
    let (x2, y2, err2) = line_step(x, y, err, dx, dy, sx, sy);
    let i2 = if e2 >= dy { i + 1 } else { i };
    let j2 = if e2 <= dx { j + 1 } else { j };
    assert(e2 >= dy || e2 <= dx);
    assert(abs(x2 - x0) == i2);
    assert(abs(y2 - y0) == j2);
    assert(between(x2, x0, x1));
    assert(between(y2, y0, y1));
    assert(dx * (j + 2) == dx * (j + 1) + dx) by (nonlinear_arith);
    assert(dy * (i + 2) == dy * (i + 1) + dy) by (nonlinear_arith);
    assert(err2 == dx * (j2 + 1) + dy * (i2 + 1));
    assert(2 * dy <= err2 <= 2 * dx);
    assert(dx >= -dy ==> 2 * err2 >= dy);
    assert(-dy >= dx ==> 2 * err2 <= dx);
    assert(dx >= -dy ==> dx + 2 * dy <= 2 * err2 <= 3 * dx + 2 * dy);
    assert(-dy >= dx ==> 2 * dx + 3 * dy <= 2 * err2 <= 2 * dx + dy);
    assert(abs(x1 - x2) + abs(y1 - y2) < abs(x1 - x) + abs(y1 - y));
}

/// Bresenham's walk from a walk state reaches the end point, one
/// neighbouring pixel at a time, and stays inside the rectangle spanned by
/// the two end points.
proof fn lemma_walk(x: int, y: int, err: int, x0: int, y0: int, x1: int, y1: int)
    requires
        walk_state(x, y, err, x0, y0, x1, y1),
    ensures
        ({
            let w = line_walk(x, y, err, x1, y1, line_dx(x0, x1), line_dy(y0, y1), line_dir(x0, x1), line_dir(y0, y1));
            &&& w.len() == 1 + (if line_dx(x0, x1) >= -line_dy(y0, y1) { abs(x1 - x) } else { abs(y1 - y) })
            &&& w[0] == (x, y)
            &&& w.last() == (x1, y1)
            &&& forall|k: int| 0 <= k < w.len() ==> between(#[trigger] w[k].0, x, x1) && between(w[k].1, y, y1)
            &&& forall|k: int| 0 <= k < w.len() - 1 ==> neighbours(#[trigger] w[k], w[k + 1])
            &&& line_dx(x0, x1) >= -line_dy(y0, y1) ==> forall|k: int|
                0 <= k < w.len() ==> #[trigger] w[k].0 == x + k * line_dir(x0, x1)
            &&& -line_dy(y0, y1) >= line_dx(x0, x1) ==> forall|k: int|
                0 <= k < w.len() ==> #[trigger] w[k].1 == y + k * line_dir(y0, y1)
            &&& forall|k: int| 0 <= k < w.len() ==> nearest_to_line(#[trigger] w[k], x0, y0, x1, y1)
        }),
    decreases abs(x1 - x) + abs(y1 - y),
{
    lemma_walk_state_nearest(x, y, err, x0, y0, x1, y1);
    let dx = line_dx(x0, x1);
    let dy = line_dy(y0, y1);
    let sx = line_dir(x0, x1);
    let sy = line_dir(y0, y1);
    let w = line_walk(x, y, err, x1, y1, dx, dy, sx, sy);
    if x == x1 && y == y1 {
        assert(w == seq![(x, y)]);
    } else {
        lemma_walk_step(x, y, err, x0, y0, x1, y1);
        assert forall|k: int| 0 <= k < w.len() implies nearest_to_line(#[trigger] w[k], x0, y0, x1, y1) by {
            let (x2, y2, err2) = line_step(x, y, err, dx, dy, sx, sy);
            lemma_walk(x2, y2, err2, x0, y0, x1, y1);
            let rest = line_walk(x2, y2, err2, x1, y1, dx, dy, sx, sy);
            assert(w == seq![(x, y)] + rest);
            if k > 0 {
                assert(w[k] == rest[k - 1]);
            }
        }
        let (x2, y2, err2) = line_step(x, y, err, dx, dy, sx, sy);
        lemma_walk(x2, y2, err2, x0, y0, x1, y1);
        let rest = line_walk(x2, y2, err2, x1, y1, dx, dy, sx, sy);
        assert(w == seq![(x, y)] + rest);
        assert(rest[0] == (x2, y2));
        assert forall|k: int| 0 <= k < w.len() implies between(#[trigger] w[k].0, x, x1) && between(w[k].1, y, y1) by {
            if k > 0 {
                assert(w[k] == rest[k - 1]);
            }
        }
        assert forall|k: int| 0 <= k < w.len() - 1 implies neighbours(#[trigger] w[k], w[k + 1]) by {
            if k > 0 {
                assert(w[k] == rest[k - 1]);
                assert(w[k + 1] == rest[k]);
            }
        }
        if dx >= -dy {
            assert forall|k: int| 0 <= k < w.len() implies #[trigger] w[k].0 == x + k * sx by {
                if k > 0 {
                    assert(w[k] == rest[k - 1]);
                    assert(rest[k - 1].0 == x2 + (k - 1) * sx);
                    assert(x2 + (k - 1) * sx == x + k * sx) by (nonlinear_arith)
                        requires
                            x2 == x + sx,
                    ;
                }
            }
        }
        if -dy >= dx {
            assert forall|k: int| 0 <= k < w.len() implies #[trigger] w[k].1 == y + k * sy by {
                if k > 0 {
                    assert(w[k] == rest[k - 1]);
                    assert(rest[k - 1].1 == y2 + (k - 1) * sy);
                    assert(y2 + (k - 1) * sy == y + k * sy) by (nonlinear_arith)
                        requires
                            y2 == y + sy,
                    ;
                }
            }
        }
    }
}

/// A line between two points of a `columns` by `rows` screen that the
/// buffer holds stays on that screen: every point of it can be drawn.
pub proof fn lemma_line_on_screen(x0: int, y0: int, x1: int, y1: int, columns: int, rows: int, len: int)
    requires
        0 <= x0 < columns,
        0 <= x1 < columns,
        0 <= y0 < rows,
        0 <= y1 < rows,
        rows * columns <= len,
        rows * columns <= u32::MAX + 1,
    ensures
        forall|k: int|
            0 <= k < line_points(x0, y0, x1, y1).len() ==> {
                let p = #[trigger] line_points(x0, y0, x1, y1)[k];
                drawable(p.0, p.1, columns, len)
            },
{
    lemma_line_points(x0, y0, x1, y1);
    let w = line_points(x0, y0, x1, y1);
    assert forall|k: int| 0 <= k < w.len() implies {
        let p = #[trigger] w[k];
        drawable(p.0, p.1, columns, len)
    } by {
        let p = w[k];
        assert(between(p.0, x0, x1) && between(p.1, y0, y1));
        assert(0 <= p.0 < columns && 0 <= p.1 < rows);
        assert(p.1 * columns + p.0 < rows * columns) by (nonlinear_arith)
            requires
                0 <= p.0 < columns,
                0 <= p.1 < rows,
        ;
    }
}

/// Two distinct pixels that touch, at a side or a corner.
pub open spec fn neighbours(p: (int, int), q: (int, int)) -> bool {
    &&& p != q
    &&& abs(p.0 - q.0) <= 1
    &&& abs(p.1 - q.1) <= 1
}

/// A line begins at its start point and ends at its end point, steps from
/// each pixel to a neighbouring one, stays inside the rectangle spanned by
/// its end points, and has one pixel per step along its longer extent.
pub proof fn lemma_line_points(x0: int, y0: int, x1: int, y1: int)
    ensures
        ({
            let w = line_points(x0, y0, x1, y1);
            &&& w.len() == 1 + max(abs(x1 - x0) as int, abs(y1 - y0) as int)
            &&& w[0] == (x0, y0)
            &&& w.last() == (x1, y1)
            &&& forall|k: int| 0 <= k < w.len() ==> between(#[trigger] w[k].0, x0, x1) && between(w[k].1, y0, y1)
            &&& forall|k: int| 0 <= k < w.len() - 1 ==> neighbours(#[trigger] w[k], w[k + 1])
        }),
{
    lemma_walk_start(x0, y0, x1, y1);
    lemma_walk(x0, y0, line_dx(x0, x1) + line_dy(y0, y1), x0, y0, x1, y1);
}

/// A line advances by exactly one pixel along its longer extent at every
/// step; a horizontal line is the row of pixels from its start to its end,
/// and a vertical line the column.
pub proof fn lemma_line_major_axis(x0: int, y0: int, x1: int, y1: int)
    ensures
        ({
            let w = line_points(x0, y0, x1, y1);
            &&& abs(x1 - x0) >= abs(y1 - y0) ==> forall|k: int|
                0 <= k < w.len() ==> #[trigger] w[k].0 == x0 + k * line_dir(x0, x1)
            &&& abs(y1 - y0) >= abs(x1 - x0) ==> forall|k: int|
                0 <= k < w.len() ==> #[trigger] w[k].1 == y0 + k * line_dir(y0, y1)
            &&& y0 == y1 ==> forall|k: int|
                0 <= k < w.len() ==> #[trigger] w[k] == (x0 + k * line_dir(x0, x1), y0)
            &&& x0 == x1 ==> forall|k: int|
                0 <= k < w.len() ==> #[trigger] w[k] == (x0, y0 + k * line_dir(y0, y1))
        }),
{
    lemma_walk_start(x0, y0, x1, y1);
    lemma_walk(x0, y0, line_dx(x0, x1) + line_dy(y0, y1), x0, y0, x1, y1);
    let w = line_points(x0, y0, x1, y1);
    assert forall|k: int| 0 <= k < w.len() && y0 == y1 implies #[trigger] w[k] == (x0 + k * line_dir(x0, x1), y0) by {
        assert(between(w[k].1, y0, y1));
        assert(w[k].0 == x0 + k * line_dir(x0, x1));
    }
    assert forall|k: int| 0 <= k < w.len() && x0 == x1 implies #[trigger] w[k] == (x0, y0 + k * line_dir(y0, y1)) by {
        assert(between(w[k].0, x0, x1));
        assert(w[k].1 == y0 + k * line_dir(y0, y1));
    }
}

/// Every pixel of a line is the one nearest to the true line: for a line
/// at most 45 degrees steep (horizontal extent `dx` at least its vertical
/// extent `d`), the `k`-th pixel lies `k` columns from the start and its
/// row is within half a pixel of the true line, `2 * |j * dx - k * d| <= dx`
/// where `j` is its distance in rows from the start; symmetrically with
/// rows and columns swapped for a steeper line.
pub proof fn lemma_line_nearest(x0: int, y0: int, x1: int, y1: int)
    ensures
        ({
            let w = line_points(x0, y0, x1, y1);
            let dx = abs(x1 - x0) as int;
            let d = abs(y1 - y0) as int;
            &&& dx >= d ==> forall|k: int|
                0 <= k < w.len() ==> abs(#[trigger] w[k].0 - x0) == k
                    && 2 * abs(abs(w[k].1 - y0) * dx - k * d) <= dx
            &&& d >= dx ==> forall|k: int|
                0 <= k < w.len() ==> abs(#[trigger] w[k].1 - y0) == k
                    && 2 * abs(abs(w[k].0 - x0) * d - k * dx) <= d
        }),
{
    lemma_walk_start(x0, y0, x1, y1);
    lemma_walk(x0, y0, line_dx(x0, x1) + line_dy(y0, y1), x0, y0, x1, y1);
    let w = line_points(x0, y0, x1, y1);
    let dx = abs(x1 - x0) as int;
    let d = abs(y1 - y0) as int;
    let sx = line_dir(x0, x1);
    let sy = line_dir(y0, y1);
    if dx >= d {
        assert forall|k: int| 0 <= k < w.len() implies abs(#[trigger] w[k].0 - x0) == k
            && 2 * abs(abs(w[k].1 - y0) * dx - k * d) <= dx by {
            assert(w[k].0 == x0 + k * sx);
            assert(abs(k * sx) == k) by (nonlinear_arith)
                requires
                    sx == 1 || sx == -1,
                    0 <= k,
            ;
            assert(nearest_to_line(w[k], x0, y0, x1, y1));
        }
    }
    if d >= dx {
        assert forall|k: int| 0 <= k < w.len() implies abs(#[trigger] w[k].1 - y0) == k
            && 2 * abs(abs(w[k].0 - x0) * d - k * dx) <= d by {
            assert(w[k].1 == y0 + k * sy);
            assert(abs(k * sy) == k) by (nonlinear_arith)
                requires
                    sy == 1 || sy == -1,
                    0 <= k,
            ;
            assert(nearest_to_line(w[k], x0, y0, x1, y1));
        }
    }
}

/// A pixel of value zero: black.
pub open spec fn black() -> Pixel {
    pixel_of(0)
}

/// The point (`x`, `y`) lies on the screen rectangle, both far edges
/// included.
pub open spec fn on_screen(x: int, y: int) -> bool {
    0 <= x <= WIDTH && 0 <= y <= HEIGHT
}

/// The screen a drawing lands on is 640 by 480 pixels: every one of its
/// pixels is on it, as are the points on its far edges (x = 640 or
/// y = 480), and nothing with a negative coordinate or beyond those edges.
pub proof fn lemma_on_screen(x: int, y: int)
    ensures
        on_screen(x, y) <==> (0 <= x <= 640 && 0 <= y <= 480),
        (0 <= x < 640 && 0 <= y < 480) ==> on_screen(x, y),
{
}

impl<'a> Painter<'a> {
    pub closed spec fn pixels(&self) -> Seq<Pixel> {
        self.fb.pixels()
    }

    pub closed spec fn pitch(&self) -> u32 {
        self.fb.pitch()
    }

    pub closed spec fn rows(&self) -> u32 {
        self.fb.rows()
    }

    pub closed spec fn columns(&self) -> u32 {
        self.fb.columns()
    }

    /// Pitch, rows and columns: what painting leaves alone.
    pub open spec fn shape(&self) -> (u32, u32, u32) {
        (self.pitch(), self.rows(), self.columns())
    }

    pub fn new(fb: &'a mut FrameBuffer<'a>) -> (p: Painter<'a>)
        ensures
            p.pixels() == old(fb).pixels(),
            p.shape() == (old(fb).pitch(), old(fb).rows(), old(fb).columns()),
    {
        Painter { fb }
    }

    fn buffer(&mut self) -> (r: &mut [Pixel])
        ensures
            r@ == old(self).pixels(),
            final(r)@ == final(self).pixels(),
            final(self).shape() == old(self).shape(),
    {
        self.fb.get_buffer()
    }

    /// Whether the pixel at column `x` of row `y` can be set: its index fits
    /// a `u32` and lies inside the buffer.
    pub fn can_draw(&mut self, x: u32, y: u32) -> (r: bool)
        ensures
            r == drawable(x as int, y as int, old(self).columns() as int, old(self).pixels().len() as int),
            final(self).pixels() == old(self).pixels(),
            final(self).shape() == old(self).shape(),
    {
        let col = self.fb.get_columns();
        let len = self.buffer().len();
        match y.checked_mul(col) {
            Some(row_start) => match row_start.checked_add(x) {
                Some(i) => (i as usize) < len,
                None => false,
            },
            None => false,
        }
    }

    /// Sets the pixel at column `x` of row `y`.
    pub fn pixel(&mut self, x: u32, y: u32, pix: Pixel)
        requires
            drawable(x as int, y as int, old(self).columns() as int, old(self).pixels().len() as int),
        ensures
            final(self).pixels() == old(self).pixels().update(
                pixel_index(x as int, y as int, old(self).columns() as int),
                pix,
            ),
            final(self).shape() == old(self).shape(),
    {
        let col = self.fb.get_columns();
        let i = (y * col + x) as usize;
        self.buffer()[i] = pix
    }

    /// Sets the pixel at column `x` of row `y` to the colour `0xRRGGBB`.
    pub fn pixel_rgb(&mut self, x: u32, y: u32, rgb: u32)
        requires
            drawable(x as int, y as int, old(self).columns() as int, old(self).pixels().len() as int),
        ensures
            final(self).pixels() == old(self).pixels().update(
                pixel_index(x as int, y as int, old(self).columns() as int),
                pixel_of(rgb as int),
            ),
            final(self).shape() == old(self).shape(),
    {
        self.pixel(x, y, Pixel::hex(rgb))
    }

    /// Draws the line from (`x0`, `y0`) to (`x1`, `y1`), both ends included,
    /// with Bresenham's algorithm.
    pub fn line(&mut self, x0: i32, y0: i32, x1: i32, y1: i32, color: Pixel)
        requires
            abs(x1 - x0) < 0x2000_0000,
            abs(y1 - y0) < 0x2000_0000,
            forall|k: int|
                0 <= k < line_points(x0 as int, y0 as int, x1 as int, y1 as int).len() ==> {
                    let p = #[trigger] line_points(x0 as int, y0 as int, x1 as int, y1 as int)[k];
                    drawable(p.0, p.1, old(self).columns() as int, old(self).pixels().len() as int)
                },
        ensures
            final(self).pixels() == paint(
                old(self).pixels(),
                line_points(x0 as int, y0 as int, x1 as int, y1 as int),
                old(self).columns() as int,
                color,
            ),
            final(self).shape() == old(self).shape(),
    {
        let ghost full = line_points(x0 as int, y0 as int, x1 as int, y1 as int);
        let ghost old_pixels = self.pixels();
        let ghost cols = self.columns() as int;
        proof {
            lemma_line_points(x0 as int, y0 as int, x1 as int, y1 as int);
            lemma_walk_start(x0 as int, y0 as int, x1 as int, y1 as int);
            assert(full[0] == (x0 as int, y0 as int));
            assert(full[full.len() - 1] == (x1 as int, y1 as int));
        }
        let mut x = x0;
        let mut y = y0;
        let (dx, dy) = ((x1 - x).abs(), -((y1 - y).abs()));
        let sx: i32 = if x < x1 { 1 } else { -1 };
        let sy: i32 = if y < y1 { 1 } else { -1 };
        let mut err = dx + dy;
        let ghost mut done: Seq<(int, int)> = Seq::empty();
        assert(full == done + line_walk(x as int, y as int, err as int, x1 as int, y1 as int, dx as int, dy as int, sx as int, sy as int));
        loop
            invariant_except_break
                dx == line_dx(x0 as int, x1 as int),
                dy == line_dy(y0 as int, y1 as int),
                sx == line_dir(x0 as int, x1 as int),
                sy == line_dir(y0 as int, y1 as int),
                dx < 0x2000_0000,
                dy > -0x2000_0000,
                walk_state(x as int, y as int, err as int, x0 as int, y0 as int, x1 as int, y1 as int),
                full == line_points(x0 as int, y0 as int, x1 as int, y1 as int),
                full == done + line_walk(x as int, y as int, err as int, x1 as int, y1 as int, dx as int, dy as int, sx as int, sy as int),
                forall|k: int|
                    0 <= k < full.len() ==> {
                        let p = #[trigger] full[k];
                        drawable(p.0, p.1, cols, old_pixels.len() as int)
                    },
                self.pixels() == paint(old_pixels, done, cols, color),
                self.pixels().len() == old_pixels.len(),
                self.shape() == old(self).shape(),
                cols == old(self).columns(),
            ensures
                self.pixels() == paint(old_pixels, full, cols, color),
                self.shape() == old(self).shape(),
            decreases abs(x1 - x) + abs(y1 - y),
        {
            let ghost walk = line_walk(x as int, y as int, err as int, x1 as int, y1 as int, dx as int, dy as int, sx as int, sy as int);
            proof {
                assert(walk[0] == (x as int, y as int));
                assert(full[done.len() as int] == walk[0]);
            }
            self.pixel(x as u32, y as u32, color);
            proof {
                let p = (x as int, y as int);
                assert(done.push(p).drop_last() == done);
                done = done.push(p);
            }
            if x == x1 && y == y1 {
                proof {
                    assert(walk == seq![(x as int, y as int)]);
                    assert(full == done);
                }
                break;
            }
            let ghost (gx, gy, gerr) = (x as int, y as int, err as int);
            proof {
                lemma_walk_step(gx, gy, gerr, x0 as int, y0 as int, x1 as int, y1 as int);
            }
            let err2 = 2 * err;
            if err2 >= dy {
                err += dy;
                x += sx;
            }
            if err2 <= dx {
                err += dx;
                y += sy;
            }
            proof {
                assert(line_step(gx, gy, gerr, dx as int, dy as int, sx as int, sy as int) == (x as int, y as int, err as int));
                assert(walk == seq![(gx, gy)] + line_walk(x as int, y as int, err as int, x1 as int, y1 as int, dx as int, dy as int, sx as int, sy as int));
                assert(full == done + line_walk(x as int, y as int, err as int, x1 as int, y1 as int, dx as int, dy as int, sx as int, sy as int));
            }
        }
    }

    /// Clears the screen to black.
    pub fn clear_screen(&mut self)
        ensures
            final(self).pixels().len() == old(self).pixels().len(),
            forall|k: int| 0 <= k < final(self).pixels().len() ==> #[trigger] final(self).pixels()[k] == black(),
            final(self).shape() == old(self).shape(),
    {
        let buffer = self.buffer();
        let n = buffer.len();
        let mut i: usize = 0;
        while i < n
            invariant
                n == buffer@.len(),
                i <= n,
                forall|k: int| 0 <= k < i ==> #[trigger] buffer@[k] == black(),
            decreases n - i,
        {
            buffer[i] = Pixel::hex(0);
            i = i + 1;
        }
    }

    /// Sets a pixel that a drawing hands over, when it lies on the screen
    /// rectangle; points off it are skipped.
    pub fn draw_clipped(&mut self, x: i32, y: i32, color: Pixel)
        requires
            on_screen(x as int, y as int) ==> drawable(
                x as int,
                y as int,
                old(self).columns() as int,
                old(self).pixels().len() as int,
            ),
        ensures
            final(self).pixels() == if on_screen(x as int, y as int) {
                old(self).pixels().update(pixel_index(x as int, y as int, old(self).columns() as int), color)
            } else {
                old(self).pixels()
            },
            (0 <= x <= 640 && 0 <= y <= 480) ==> final(self).pixels() == old(self).pixels().update(
                y * old(self).columns() + x,
                color,
            ),
            !(0 <= x <= 640 && 0 <= y <= 480) ==> final(self).pixels() == old(self).pixels(),
            final(self).shape() == old(self).shape(),
    {
        if x >= 0 && y >= 0 {
            let ux = x as u32;
            let uy = y as u32;
            if ux <= WIDTH && uy <= HEIGHT {
                self.pixel(ux, uy, color);
            }
        }
    }
}

/// The absolute value of an `i32`; `i32::MIN` has none.
pub assume_specification[ <i32>::abs ](x: i32) -> (r: i32)
    requires
        x != i32::MIN,
    ensures
        r == abs(x as int),
;

/// The channels a pixel hands to the drawing library: red, green, blue.
pub open spec fn drawing_channels(p: Pixel) -> (u8, u8, u8) {
    (p.red, p.green, p.blue)
}

/// The pixel made of channels taken from the drawing library. The library
/// orders a colour's bytes the other way round from the framebuffer, so its
/// red channel becomes the pixel's blue one and its blue channel the red.
pub open spec fn from_drawing(c: (u8, u8, u8)) -> Pixel {
    Pixel { blue: c.0, green: c.1, red: c.2 }
}

impl Pixel {
    /// The red, green and blue channels of the pixel.
    pub fn channels(self) -> (c: (u8, u8, u8))
        ensures
            c == drawing_channels(self),
    {
        (self.red, self.green, self.blue)
    }

    /// The pixel for a colour of the drawing library, given as its red,
    /// green and blue channels.
    pub fn from_drawing_channels(r: u8, g: u8, b: u8) -> (p: Pixel)
        ensures
            p == from_drawing((r, g, b)),
    {
        Pixel { blue: r, green: g, red: b }
    }
}

/// Handing a pixel to the drawing library and taking it back trades its red
/// and blue channels; doing so twice gives the pixel back.
pub proof fn lemma_drawing_round_trip(p: Pixel)
    ensures
        from_drawing(drawing_channels(p)) == (Pixel { blue: p.red, green: p.green, red: p.blue }),
        from_drawing(drawing_channels(from_drawing(drawing_channels(p)))) == p,
{
}

/// The 24-bit colour type of embedded-graphics.
#[verifier::external_type_specification]
#[verifier::external_body]
pub struct ExRgb888(Rgb888);

/// The red channel of an embedded-graphics colour, as `RgbColor::r` reads
/// it.
pub uninterp spec fn rgb888_red(c: Rgb888) -> u8;

/// The green channel of an embedded-graphics colour, as `RgbColor::g` reads
/// it.
pub uninterp spec fn rgb888_green(c: Rgb888) -> u8;

/// The blue channel of an embedded-graphics colour, as `RgbColor::b` reads
/// it.
pub uninterp spec fn rgb888_blue(c: Rgb888) -> u8;

/// `Rgb888::new` of embedded-graphics: the colour whose red, green and blue
/// channels read back as `r`, `g` and `b` (eight bits each, so nothing is
/// cut off).
#[verifier::external_body]
fn rgb888_new(r: u8, g: u8, b: u8) -> (c: Rgb888)
    ensures
        rgb888_red(c) == r,
        rgb888_green(c) == g,
        rgb888_blue(c) == b,
{
    Rgb888::new(r, g, b)
}

/// `RgbColor::r` of embedded-graphics on an `Rgb888`: its red channel.
#[verifier::external_body]
fn rgb888_r(c: &Rgb888) -> (v: u8)
    ensures
        v == rgb888_red(*c),
{
    c.r()
}

/// `RgbColor::g` of embedded-graphics on an `Rgb888`: its green channel.
#[verifier::external_body]
fn rgb888_g(c: &Rgb888) -> (v: u8)
    ensures
        v == rgb888_green(*c),
{
    c.g()
}

/// `RgbColor::b` of embedded-graphics on an `Rgb888`: its blue channel.
#[verifier::external_body]
fn rgb888_b(c: &Rgb888) -> (v: u8)
    ensures
        v == rgb888_blue(*c),
{
    c.b()
}

/// The channels of an embedded-graphics colour: red, green, blue.
pub open spec fn rgb888_channels(c: Rgb888) -> (u8, u8, u8) {
    (rgb888_red(c), rgb888_green(c), rgb888_blue(c))
}

impl From<Pixel> for Rgb888 {
    /// The colour with the pixel's red, green and blue channels.
    fn from(value: Pixel) -> (c: Self)
        ensures
            rgb888_channels(c) == drawing_channels(value),
    {
        let (r, g, b) = value.channels();
        rgb888_new(r, g, b)
    }
}

/// A colour cannot be written down in these proofs, only its channels, so
/// the conversion promises no colour through `from_spec`; its own `ensures`
/// gives the channels.
impl vstd::std_specs::convert::FromSpecImpl<Pixel> for Rgb888 {
    open spec fn obeys_from_spec() -> bool {
        false
    }

    open spec fn from_spec(v: Pixel) -> Rgb888 {
        arbitrary()
    }
}

impl From<Rgb888> for Pixel {
    /// The pixel made of the colour's channels, red and blue traded.
    fn from(value: Rgb888) -> (p: Self)
        ensures
            p == from_drawing(rgb888_channels(value)),
    {
        // embedded_graphics assumes a different endianess than ARM
        // so we have to reverse their orders when converting
        Pixel::from_drawing_channels(rgb888_r(&value), rgb888_g(&value), rgb888_b(&value))
    }
}

impl vstd::std_specs::convert::FromSpecImpl<Rgb888> for Pixel {
    open spec fn obeys_from_spec() -> bool {
        true
    }

    open spec fn from_spec(v: Rgb888) -> Pixel {
        from_drawing(rgb888_channels(v))
    }
}

/// A pixel turned into a colour and back has its red and blue channels
/// traded; twice, it is the pixel again.
pub proof fn lemma_colour_round_trip(p: Pixel, c: Rgb888)
    requires
        rgb888_channels(c) == drawing_channels(p),
    ensures
        from_drawing(rgb888_channels(c)) == (Pixel { blue: p.red, green: p.green, red: p.blue }),
{
}

/// Colour depth the video driver asks for: 8 bits each of red, green and
/// blue.
pub const BIT_DEPTH: u32 = 24;

/// The framebuffer request exchanged with the VideoCore through the
/// mailbox; the VideoCore fills in `pitch`, `pointer` and `size`.
#[derive(Debug)]
pub struct FrameBufferMail {
    pub width: u32,
    pub height: u32,
    pub virtual_width: u32,
    pub virtual_height: u32,
    pub pitch: u32,
    pub depth: u32,
    pub x_offset: u32,
    pub y_offset: u32,
    pub pointer: u32,
    pub size: u32,
}

impl FrameBufferMail {
    /// The request for a `width` by `height` framebuffer, 24 bits deep, with
    /// the virtual screen the size of the physical one.
    pub fn request(width: u32, height: u32) -> (m: FrameBufferMail)
        ensures
            m == (FrameBufferMail {
                width,
                height,
                virtual_width: width,
                virtual_height: height,
                pitch: 0,
                depth: BIT_DEPTH,
                x_offset: 0,
                y_offset: 0,
                pointer: 0,
                size: 0,
            }),
    {
        FrameBufferMail {
            width,
            height,
            virtual_width: width,
            virtual_height: height,
            pitch: 0,
            depth: BIT_DEPTH,
            x_offset: 0,
            y_offset: 0,
            pointer: 0,
            size: 0,
        }
    }

    /// The mail word that hands the request stored at physical `address` to
    /// the VideoCore: the address seen from the VideoCore's uncached bus, on
    /// the framebuffer channel 1.
    pub fn mail_for_address(address: u32) -> (m: Mail)
        requires
            address.has_uncached_bus_alias(),
        ensures
            m@ == with_channel(with_data_in_place(0, address.uncached_bus_alias()), 1),
    {
        Mail::new().data().set_noshift(address.phys_to_uncachedbus()).chan().set(1)
    }

    /// The VideoCore's reply `reply` accepts the request and the request now
    /// holds the framebuffer's address.
    pub fn is_allocated(&self, reply: Mail) -> (r: bool)
        ensures
            r == (crate::armv6a::drivers::mailbox::mail_data(reply@) == 0 && self.pointer != 0),
    {
        reply.data().get() == 0 && self.pointer != 0
    }

    /// The framebuffer the VideoCore's reply describes, over `buffer`: its
    /// pitch, as many rows as the height and as many columns as the width.
    pub fn frame_buffer<'a>(&self, buffer: &'a mut [Pixel]) -> (fb: FrameBuffer<'a>)
        ensures
            fb.pitch() == self.pitch,
            fb.rows() == self.height,
            fb.columns() == self.width,
            fb.pixels() == old(buffer)@,
    {
        FrameBuffer::new(self.pitch, self.height, self.width, buffer)
    }

    /// The number of 3-byte pixels in the framebuffer of `size` bytes.
    pub fn pixel_count(&self) -> (n: usize)
        ensures
            n == self.size / 3,
    {
        (self.size / 3) as usize
    }
}

/// The mail word for a request in the first gigabyte of physical memory
/// carries the request's bus address, whose low four bits are zero when the
/// request is 16-byte aligned, and the framebuffer channel.
pub proof fn lemma_request_mail(address: u32)
    requires
        address.has_uncached_bus_alias(),
        address % 16 == 0,
    ensures
        crate::armv6a::drivers::mailbox::mail_data(with_channel(with_data_in_place(0, address.uncached_bus_alias()), 1)) * 16
            == address + crate::armv6a::memory::UNCACHED_BUS_OFFSET,
        crate::armv6a::drivers::mailbox::mail_channel(with_channel(with_data_in_place(0, address.uncached_bus_alias()), 1)) == 1,
{
}

} // verus!
