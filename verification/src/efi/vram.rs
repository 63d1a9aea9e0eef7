//! The production pixel surface and the drawing primitives.
//!
//! `VramBufferInfo` is the surface the boot sequence draws on: a linear
//! row-major buffer of 32-bit pixels with firmware-reported geometry.
//! The drawing primitives operate against any [`BitMap`] surface and
//! validate every caller-supplied coordinate; bulk operations validate a
//! bounding box once and then use the unchecked accessor.

use vstd::prelude::*;
use vstd::pervasive::VecAdditionalExecFns;
use crate::Error;
use crate::efi::bitmap::{
    BitMap, in_x_range, in_y_range, valid_point, in_grid, pixel_index, pixel_at_spec,
    same_geometry, lemma_set_pixel_pointwise, lemma_pointwise_equal_pixels,
};
use crate::efi::protocol::EfiGraphicsOutputProtocol;
use crate::efi::font::{spec_font, glyph_cell, lookup_font};

verus! {

/// Convenience 24-bit RGB values, packed into the low bits of a `u32`.
/// Callers may pass arbitrary packed values; these are not a closed set.
#[derive(Clone, Copy, PartialEq, Eq, Structural, Debug)]
pub enum Color {
    Black,
    Red,
    Green,
    Blue,
    Yellow,
    Cyan,
    Magenta,
    White,
}

impl Color {
    /// The packed RGB word for this named color.
    pub fn rgb(self) -> (r: u32)
        ensures
            r == self.spec_rgb(),
    {
        match self {
            Color::Black => 0x000000u32,
            Color::Red => 0xff0000u32,
            Color::Green => 0x00ff00u32,
            Color::Blue => 0x0000ffu32,
            Color::Yellow => 0xffff00u32,
            Color::Cyan => 0x00ffffu32,
            Color::Magenta => 0xff00ffu32,
            Color::White => 0xffffffu32,
        }
    }

    pub open spec fn spec_rgb(self) -> u32 {
        match self {
            Color::Black => 0x000000u32,
            Color::Red => 0xff0000u32,
            Color::Green => 0x00ff00u32,
            Color::Blue => 0x0000ffu32,
            Color::Yellow => 0xffff00u32,
            Color::Cyan => 0x00ffffu32,
            Color::Magenta => 0xff00ffu32,
            Color::White => 0xffffffu32,
        }
    }
}

/// The boot display surface: a row-major pixel buffer with the geometry
/// firmware reported for its negotiated graphics mode, 4 bytes per pixel.
pub struct VramBufferInfo {
    buf: Vec<u32>,
    width: i64,
    height: i64,
    pixels_per_line: i64,
}

impl VramBufferInfo {
    /// An all-black surface of the given geometry.
    ///
    /// The bounds asked for are exactly what the machine forces: the cell
    /// count `pixels_per_line * height` must fit in a `usize`.
    pub fn new(width: i64, height: i64, pixels_per_line: i64) -> (r: VramBufferInfo)
        requires
            0 <= width,
            0 <= height,
            0 <= pixels_per_line,
            pixels_per_line * height <= usize::MAX,
        ensures
            r.inv(),
            r.spec_width() == width as int,
            r.spec_height() == height as int,
            r.spec_pixels_per_line() == pixels_per_line as int,
            r.pixels().len() == pixels_per_line * height,
            forall|i: int| 0 <= i < r.pixels().len() ==> r.pixels()[i] == 0u32,
    {
        proof {
            assert(height <= pixels_per_line * height || height == 0 || pixels_per_line == 0)
                by (nonlinear_arith)
                requires
                    0 <= height,
                    0 <= pixels_per_line,
            ;
            assert(pixels_per_line <= pixels_per_line * height || height == 0)
                by (nonlinear_arith)
                requires
                    0 <= height,
                    0 <= pixels_per_line,
            ;
        }
        let n: usize = if height == 0 || pixels_per_line == 0 {
            0
        } else {
            (pixels_per_line as usize) * (height as usize)
        };
        assert(n == pixels_per_line * height);
        let mut buf: Vec<u32> = Vec::new();
        while buf.len() < n
            invariant
                buf@.len() <= n,
                forall|i: int| 0 <= i < buf@.len() ==> buf@[i] == 0u32,
            decreases n - buf@.len(),
        {
            buf.push(0u32);
        }
        VramBufferInfo { buf, width, height, pixels_per_line }
    }

    /// Read access to the pixel cells, for handing the drawn contents on
    /// (the surrounding program copies them out to the hardware buffer).
    pub fn buf(&self) -> (r: &Vec<u32>)
        ensures
            r@ == self.pixels(),
    {
        &self.buf
    }
}

impl BitMap for VramBufferInfo {
    closed spec fn spec_width(&self) -> int {
        self.width as int
    }

    closed spec fn spec_height(&self) -> int {
        self.height as int
    }

    closed spec fn spec_pixels_per_line(&self) -> int {
        self.pixels_per_line as int
    }

    closed spec fn spec_byte_by_pixel(&self) -> int {
        4
    }

    closed spec fn pixels(&self) -> Seq<u32> {
        self.buf@
    }

    closed spec fn inv(&self) -> bool {
        &&& 0 <= self.width
        &&& 0 <= self.height
        &&& 0 <= self.pixels_per_line
        &&& self.buf@.len() == self.pixels_per_line * self.height
    }

    proof fn inv_grid_facts(&self) {
    }

    fn byte_by_pixel(&self) -> i64 {
        4
    }

    fn pixels_per_line(&self) -> i64 {
        self.pixels_per_line
    }

    fn width(&self) -> i64 {
        self.width
    }

    fn height(&self) -> i64 {
        self.height
    }

    fn is_in_x_range(&self, px: i64) -> bool {
        let limit = if self.width < self.pixels_per_line {
            self.width
        } else {
            self.pixels_per_line
        };
        0 <= px && px < limit
    }

    fn is_in_y_range(&self, py: i64) -> bool {
        0 <= py && py < self.height
    }

    fn unchecked_set_pixel(&mut self, x: i64, y: i64, color: u32) {
        let len: usize = self.buf.len();
        proof {
            assert(y * self.pixels_per_line + x < len && y <= len && x <= len
                && self.pixels_per_line <= len && y * self.pixels_per_line <= len)
                by (nonlinear_arith)
                requires
                    0 <= x < self.pixels_per_line,
                    0 <= y < self.height,
                    len == self.pixels_per_line * self.height,
            ;
        }
        let idx: usize = (y as usize) * (self.pixels_per_line as usize) + (x as usize);
        self.buf.set(idx, color);
    }

    fn pixel_at(&self, x: i64, y: i64) -> Option<u32> {
        if self.is_in_x_range(x) && self.is_in_y_range(y) {
            let len: usize = self.buf.len();
            proof {
                assert(y * self.pixels_per_line + x < len && y <= len && x <= len
                    && self.pixels_per_line <= len && y * self.pixels_per_line <= len)
                    by (nonlinear_arith)
                    requires
                        0 <= x < self.pixels_per_line,
                        0 <= y < self.height,
                        len == self.pixels_per_line * self.height,
                ;
            }
            let idx: usize = (y as usize) * (self.pixels_per_line as usize) + (x as usize);
            Some(self.buf[idx])
        } else {
            None
        }
    }
}

/// Builds the boot display surface from the graphics-output capability
/// the surrounding program located, or reports that firmware offered
/// none. The one negotiated format in scope is 32 bits per pixel.
pub fn init_vram(gp: Option<&EfiGraphicsOutputProtocol>) -> (r: Result<VramBufferInfo, Error>)
    requires
        gp is Some ==> (gp.unwrap().mode.info.pixels_per_scan_line as int)
            * (gp.unwrap().mode.info.vertical_resolution as int) <= usize::MAX,
    ensures
        gp is None ==> r == Err::<VramBufferInfo, Error>(Error::GraphicsProtocolNotFound),
        gp is Some ==> {
            &&& r is Ok
            &&& r.unwrap().inv()
            &&& r.unwrap().spec_width() == gp.unwrap().mode.info.horizontal_resolution
            &&& r.unwrap().spec_height() == gp.unwrap().mode.info.vertical_resolution
            &&& r.unwrap().spec_pixels_per_line() == gp.unwrap().mode.info.pixels_per_scan_line
            &&& forall|i: int| 0 <= i < r.unwrap().pixels().len() ==> r.unwrap().pixels()[i]
                == 0u32
        },
{
    match gp {
        None => Err(Error::GraphicsProtocolNotFound),
        Some(gp) => {
            let width = gp.mode.info.horizontal_resolution as i64;
            let height = gp.mode.info.vertical_resolution as i64;
            let pixels_per_line = gp.mode.info.pixels_per_scan_line as i64;
            Ok(VramBufferInfo::new(width, height, pixels_per_line))
        },
    }
}

/// Unchecked single-pixel write: `(x, y)` must already be validated.
pub fn unchecked_draw_point<T: BitMap>(buf: &mut T, color: u32, x: i64, y: i64)
    requires
        old(buf).inv(),
        valid_point(old(buf), x as int, y as int),
    ensures
        final(buf).inv(),
        same_geometry(old(buf), final(buf)),
        final(buf).pixels() == old(buf).pixels().update(
            pixel_index(old(buf), x as int, y as int),
            color,
        ),
        forall|xx: int, yy: int|
            in_grid(old(buf), xx, yy) ==> pixel_at_spec(final(buf), xx, yy) == if xx == x as int
                && yy == y as int {
                color
            } else {
                pixel_at_spec(old(buf), xx, yy)
            },
{
    buf.unchecked_set_pixel(x, y, color);
    proof {
        lemma_set_pixel_pointwise(old(buf), buf, x as int, y as int, color);
        old(buf).inv_grid_facts();
        buf.inv_grid_facts();
    }
}

/// Checked single-pixel write: paints `(x, y)` if the coordinate is
/// valid, and otherwise reports the expected out-of-range failure
/// without touching memory.
pub fn draw_point<T: BitMap>(buf: &mut T, color: u32, x: i64, y: i64) -> (r: Result<(), Error>)
    requires
        old(buf).inv(),
    ensures
        final(buf).inv(),
        r == if valid_point(old(buf), x as int, y as int) {
            Ok::<(), Error>(())
        } else {
            Err::<(), Error>(Error::OutOfRange)
        },
        valid_point(old(buf), x as int, y as int) ==> {
            &&& same_geometry(old(buf), final(buf))
            &&& final(buf).pixels() == old(buf).pixels().update(
                pixel_index(old(buf), x as int, y as int),
                color,
            )
            &&& forall|xx: int, yy: int|
                in_grid(old(buf), xx, yy) ==> pixel_at_spec(final(buf), xx, yy) == if xx
                    == x as int && yy == y as int {
                    color
                } else {
                    pixel_at_spec(old(buf), xx, yy)
                }
        },
        !valid_point(old(buf), x as int, y as int) ==> *final(buf) == *old(buf),
{
    if buf.is_in_x_range(x) && buf.is_in_y_range(y) {
        unchecked_draw_point(buf, color, x, y);
        Ok(())
    } else {
        Err(Error::OutOfRange)
    }
}

/// Whether `(xx, yy)` lies in the rectangle `[px, px+w) x [py, py+h)`.
pub open spec fn in_rect(px: int, py: int, w: int, h: int, xx: int, yy: int) -> bool {
    px <= xx < px + w && py <= yy < py + h
}

/// The corner validation a rectangle fill performs: both the top-left
/// corner and the bottom-right corner `(px+w-1, py+h-1)` must be valid.
/// A width or height of zero therefore addresses coordinate `px-1` or
/// `py-1`; callers must account for that documented edge case.
pub open spec fn rect_corners_in_range<T: BitMap>(s: &T, px: int, py: int, w: int, h: int) -> bool {
    &&& in_x_range(s, px)
    &&& in_y_range(s, py)
    &&& in_x_range(s, px + w - 1)
    &&& in_y_range(s, py + h - 1)
}

/// What a rectangle fill does: every cell inside the rectangle now holds
/// `color`, every other cell is unchanged, and the geometry is untouched.
pub open spec fn rect_filled<T: BitMap>(
    pre: &T,
    post: &T,
    color: u32,
    px: int,
    py: int,
    w: int,
    h: int,
) -> bool {
    &&& same_geometry(pre, post)
    &&& forall|xx: int, yy: int|
        in_grid(pre, xx, yy) ==> pixel_at_spec(post, xx, yy) == if in_rect(px, py, w, h, xx, yy) {
            color
        } else {
            pixel_at_spec(pre, xx, yy)
        }
}

/// Fills the rectangle `[px, px+w) x [py, py+h)` with `color`.
///
/// The whole rectangle is validated up front through its two corners;
/// if either corner is out of range the call fails and writes nothing.
/// Once the corners pass, every write goes through the unchecked
/// accessor. A zero or negative width or height yields an empty fill
/// (provided the shifted corner check passes).
pub fn fill_rect<T: BitMap>(buf: &mut T, color: u32, px: i64, py: i64, w: i64, h: i64) -> (r:
    Result<(), Error>)
    requires
        old(buf).inv(),
    ensures
        final(buf).inv(),
        r == if rect_corners_in_range(old(buf), px as int, py as int, w as int, h as int) {
            Ok::<(), Error>(())
        } else {
            Err::<(), Error>(Error::OutOfRange)
        },
        rect_corners_in_range(old(buf), px as int, py as int, w as int, h as int)
            ==> rect_filled(old(buf), final(buf), color, px as int, py as int, w as int, h as int),
        !rect_corners_in_range(old(buf), px as int, py as int, w as int, h as int) ==> *final(buf)
            == *old(buf),
{
    let width = buf.width();
    let height = buf.height();
    let ppl = buf.pixels_per_line();
    let xmin: i64 = if width < ppl {
        width
    } else {
        ppl
    };
    let xc: i128 = px as i128 + w as i128 - 1;
    let yc: i128 = py as i128 + h as i128 - 1;
    if !(0 <= px && px < xmin && 0 <= py && py < height && 0 <= xc && xc < xmin as i128 && 0 <= yc
        && yc < height as i128) {
        return Err(Error::OutOfRange);
    }
    let xend: i64 = if w <= 0 {
        px
    } else {
        px + w
    };
    let yend: i64 = if h <= 0 {
        py
    } else {
        py + h
    };
    let mut y = py;
    while y < yend
        invariant
            old(buf).inv(),
            buf.inv(),
            same_geometry(old(buf), buf),
            buf.spec_pixels_per_line() == old(buf).spec_pixels_per_line(),
            buf.spec_height() == old(buf).spec_height(),
            rect_corners_in_range(old(buf), px as int, py as int, w as int, h as int),
            py <= y <= yend,
            yend == if h <= 0 {
                py as int
            } else {
                py + h
            },
            xend == if w <= 0 {
                px as int
            } else {
                px + w
            },
            in_x_range(old(buf), px as int) || w <= 0,
            w > 0 ==> in_x_range(old(buf), xend - 1),
            h > 0 ==> in_y_range(old(buf), yend - 1),
            forall|xx: int, yy: int|
                in_grid(old(buf), xx, yy) ==> pixel_at_spec(buf, xx, yy) == if px <= xx < xend
                    && py <= yy < y {
                    color
                } else {
                    pixel_at_spec(old(buf), xx, yy)
                },
        decreases yend - y,
    {
        let mut x = px;
        while x < xend
            invariant
                old(buf).inv(),
                buf.inv(),
                same_geometry(old(buf), buf),
                rect_corners_in_range(old(buf), px as int, py as int, w as int, h as int),
                px <= x <= xend,
                py <= y < yend,
                yend == if h <= 0 {
                    py as int
                } else {
                    py + h
                },
                xend == if w <= 0 {
                    px as int
                } else {
                    px + w
                },
                w > 0 ==> in_x_range(old(buf), xend - 1),
                h > 0 ==> in_y_range(old(buf), yend - 1),
                forall|xx: int, yy: int|
                    in_grid(old(buf), xx, yy) ==> pixel_at_spec(buf, xx, yy) == if (px <= xx < xend
                        && py <= yy < y) || (yy == y as int && px <= xx < x) {
                        color
                    } else {
                        pixel_at_spec(old(buf), xx, yy)
                    },
            decreases xend - x,
        {
            unchecked_draw_point(buf, color, x, y);
            x = x + 1;
        }
        y = y + 1;
    }
    Ok(())
}

/// The midpoint rounding rule of the line rasterizer: the cross-axis
/// offset after `r` steps along the dominant axis, `(2*dh*r + dw)/dw/2`
/// with truncating division, short-circuited to 0 for a degenerate line.
pub open spec fn slope_at(dw: int, dh: int, r: int) -> int {
    if dw == 0 {
        0
    } else {
        (2 * dh * r + dw) / dw / 2
    }
}

/// What `calc_slope_point` returns: absence when the slope is too steep
/// (`dw < dh`) or the step is outside `[0, dw]`, the rounded cross-axis
/// offset otherwise.
pub open spec fn spec_calc_slope_point(dw: int, dh: int, x: int) -> Option<int> {
    if dw < dh {
        None
    } else if dw == 0 {
        Some(0int)
    } else if 0 <= x <= dw {
        Some(slope_at(dw, dh, x))
    } else {
        None
    }
}

/// The cross-axis offset for step `x` of a line whose dominant-axis
/// difference is `dw` and cross-axis difference is `dh` (both taken
/// non-negative, as absolute differences of validated coordinates).
pub fn calc_slope_point(dw: i64, dh: i64, x: i64) -> (r: Option<i64>)
    requires
        0 <= dw,
        0 <= dh,
    ensures
        r is Some <==> spec_calc_slope_point(dw as int, dh as int, x as int) is Some,
        r is Some ==> r.unwrap() as int == spec_calc_slope_point(
            dw as int,
            dh as int,
            x as int,
        ).unwrap(),
        r is Some ==> 0 <= r.unwrap() <= dh,
{
    if dw < dh {
        None
    } else if dw == 0 {
        Some(0)
    } else if 0 <= x && x <= dw {
        proof {
            let dhi = dh as int;
            let xi = x as int;
            let dwi = dw as int;
            let numi = 2 * dhi * xi + dwi;
            assert(numi <= dwi * (2 * dhi + 1) && 0 <= numi && numi <= u128::MAX)
                by (nonlinear_arith)
                requires
                    0 <= dhi < 0x8000_0000_0000_0000,
                    0 < dwi < 0x8000_0000_0000_0000,
                    0 <= xi <= dwi,
                    numi == 2 * dhi * xi + dwi,
            ;
            assert(0 <= numi / dwi / 2 <= dhi) by (nonlinear_arith)
                requires
                    0 < dwi,
                    0 <= dhi,
                    0 <= numi,
                    numi <= dwi * (2 * dhi + 1),
            ;
        }
        let num: u128 = 2 * (dh as u128) * (x as u128) + dw as u128;
        let v: u128 = num / (dw as u128) / 2;
        Some(v as i64)
    } else {
        None
    }
}

/// The sign of a difference: the unit step the rasterizer takes.
pub open spec fn sign(v: int) -> int {
    if v > 0 {
        1
    } else if v < 0 {
        -1
    } else {
        0
    }
}

/// Whether the rasterizer plots cell `(xx, yy)` for the line from
/// `(x0, y0)` to `(x1, y1)`: one cell per unit step along the dominant
/// axis, endpoint included, the cross-axis offset given by the midpoint
/// rounding rule.
pub open spec fn line_plot(x0: int, y0: int, x1: int, y1: int, xx: int, yy: int) -> bool {
    let dx = vstd::math::abs(x1 - x0) as int;
    let dy = vstd::math::abs(y1 - y0) as int;
    if dx >= dy {
        &&& vstd::math::min(x0, x1) <= xx <= vstd::math::max(x0, x1)
        &&& yy == y0 + slope_at(dx, dy, vstd::math::abs(xx - x0) as int) * sign(y1 - y0)
    } else {
        &&& vstd::math::min(y0, y1) <= yy <= vstd::math::max(y0, y1)
        &&& xx == x0 + slope_at(dy, dx, vstd::math::abs(yy - y0) as int) * sign(x1 - x0)
    }
}

/// The plotted cells whose dominant-axis offset is below `k`: the part
/// of the line the rasterizer has painted after `k` steps.
pub open spec fn line_plot_upto(
    x0: int,
    y0: int,
    x1: int,
    y1: int,
    k: int,
    xx: int,
    yy: int,
) -> bool {
    let dx = vstd::math::abs(x1 - x0) as int;
    let dy = vstd::math::abs(y1 - y0) as int;
    &&& line_plot(x0, y0, x1, y1, xx, yy)
    &&& (if dx >= dy {
        vstd::math::abs(xx - x0) < k
    } else {
        vstd::math::abs(yy - y0) < k
    })
}

/// Both endpoints of the line lie on the surface.
pub open spec fn endpoints_in_range<T: BitMap>(
    s: &T,
    x0: int,
    y0: int,
    x1: int,
    y1: int,
) -> bool {
    valid_point(s, x0, y0) && valid_point(s, x1, y1)
}

/// The midpoint rounding rule keeps the cross-axis offset between 0 and
/// the cross-axis difference.
pub proof fn lemma_slope_at_bounds(dw: int, dh: int, r: int)
    requires
        0 <= dh <= dw,
        0 <= r <= dw,
    ensures
        0 <= slope_at(dw, dh, r) <= dh,
{
    if dw != 0 {
        let numi = 2 * dh * r + dw;
        assert(numi <= dw * (2 * dh + 1) && 0 <= numi) by (nonlinear_arith)
            requires
                0 <= dh <= dw,
                0 <= r <= dw,
                0 < dw,
                numi == 2 * dh * r + dw,
        ;
        assert(0 <= numi / dw / 2 <= dh) by (nonlinear_arith)
            requires
                0 < dw,
                0 <= dh,
                0 <= numi,
                numi <= dw * (2 * dh + 1),
        ;
    }
}

/// A rounding tie of the midpoint rule: step `r` falls exactly halfway
/// between two cross-axis offsets.
pub open spec fn slope_tie(dw: int, dh: int, r: int) -> bool {
    (2 * dh * r + dw) % (2 * dw) == 0
}

/// Away from rounding ties, the offsets at steps `r` and `dw - r` are
/// complementary: walking the line from its other end rounds to the
/// same cell.
pub proof fn lemma_slope_at_complement(dw: int, dh: int, r: int)
    requires
        0 < dw,
        0 <= dh <= dw,
        0 <= r <= dw,
        !slope_tie(dw, dh, r),
    ensures
        slope_at(dw, dh, dw - r) == dh - slope_at(dw, dh, r),
{
    let m = 2 * dw;
    let a = 2 * dh * r;
    let q = a + dw;
    assert(0 <= a && a <= m * dh) by (nonlinear_arith)
        requires
            0 <= dh <= dw,
            0 <= r <= dw,
            a == 2 * dh * r,
            m == 2 * dw,
    ;
    vstd::arithmetic::div_mod::lemma_div_denominator(q, dw, 2);
    assert(slope_at(dw, dh, r) == q / m);
    let u = q / m;
    let rm = q % m;
    vstd::arithmetic::div_mod::lemma_fundamental_div_mod(q, m);
    vstd::arithmetic::div_mod::lemma_mod_bound(q, m);
    assert(0 < rm < m);
    lemma_slope_at_bounds(dw, dh, r);
    assert(0 <= u <= dh);
    let numer2 = 2 * dh * (dw - r) + dw;
    assert(numer2 == m * (dh - u) + (m - rm)) by (nonlinear_arith)
        requires
            numer2 == 2 * dh * (dw - r) + dw,
            q == m * u + rm,
            q == 2 * dh * r + dw,
            m == 2 * dw,
    ;
    assert(numer2 >= 0) by (nonlinear_arith)
        requires
            numer2 == m * (dh - u) + (m - rm),
            0 <= dh - u,
            0 < m - rm,
            0 < m,
    ;
    vstd::arithmetic::div_mod::lemma_fundamental_div_mod_converse(numer2, m, dh - u, m - rm);
    vstd::arithmetic::div_mod::lemma_div_denominator(numer2, dw, 2);
    assert(slope_at(dw, dh, dw - r) == numer2 / m);
}

/// No step of the line's dominant axis falls on a rounding tie. Lines
/// whose dominant-axis difference is odd, axis-aligned lines, and exact
/// diagonals all satisfy this.
pub open spec fn line_no_ties(x0: int, y0: int, x1: int, y1: int) -> bool {
    let dx = vstd::math::abs(x1 - x0) as int;
    let dy = vstd::math::abs(y1 - y0) as int;
    if dx >= dy {
        forall|r: int| 0 <= r <= dx ==> !#[trigger] slope_tie(dx, dy, r)
    } else {
        forall|r: int| 0 <= r <= dy ==> !#[trigger] slope_tie(dy, dx, r)
    }
}

/// A rounding tie forces the dominant-axis difference to be even.
proof fn lemma_tie_needs_even(dw: int, dh: int, r: int)
    requires
        0 < dw,
        dw % 2 == 1,
    ensures
        !slope_tie(dw, dh, r),
{
    if slope_tie(dw, dh, r) {
        let m = 2 * dw;
        let q = 2 * dh * r + dw;
        vstd::arithmetic::div_mod::lemma_fundamental_div_mod(q, m);
        let k = q / m;
        assert(dw == (dw * k - dh * r) * 2 + 0) by (nonlinear_arith)
            requires
                q == m * k + q % m,
                q % m == 0,
                q == 2 * dh * r + dw,
                m == 2 * dw,
        ;
        vstd::arithmetic::div_mod::lemma_fundamental_div_mod_converse(dw, 2, dw * k - dh * r, 0);
        assert(false);
    }
}

/// A line whose dominant-axis difference is odd has no rounding ties,
/// so it may always be drawn in either direction.
pub proof fn lemma_odd_dominant_no_ties(x0: int, y0: int, x1: int, y1: int)
    requires
        ({
            let dx = vstd::math::abs(x1 - x0) as int;
            let dy = vstd::math::abs(y1 - y0) as int;
            (if dx >= dy {
                dx
            } else {
                dy
            }) % 2 == 1
        }),
    ensures
        line_no_ties(x0, y0, x1, y1),
{
    let dx = vstd::math::abs(x1 - x0) as int;
    let dy = vstd::math::abs(y1 - y0) as int;
    if dx >= dy {
        assert forall|r: int| 0 <= r <= dx implies !slope_tie(dx, dy, r) by {
            lemma_tie_needs_even(dx, dy, r);
        }
    } else {
        assert forall|r: int| 0 <= r <= dy implies !slope_tie(dy, dx, r) by {
            lemma_tie_needs_even(dy, dx, r);
        }
    }
}

/// The rasterizer lights the same set of cells in either direction,
/// provided no step of the line falls on a rounding tie. (On a tie the
/// two directions round to different neighbouring cells: the line from
/// (0,0) to (2,1) is such an input.)
pub proof fn lemma_line_plot_symmetric(x0: int, y0: int, x1: int, y1: int, xx: int, yy: int)
    requires
        line_no_ties(x0, y0, x1, y1),
    ensures
        line_plot(x0, y0, x1, y1, xx, yy) == line_plot(x1, y1, x0, y0, xx, yy),
{
    let dx = vstd::math::abs(x1 - x0) as int;
    let dy = vstd::math::abs(y1 - y0) as int;
    if dx >= dy {
        if dx == 0 {
            assert(x1 == x0 && y1 == y0);
        } else if vstd::math::min(x0, x1) <= xx <= vstd::math::max(x0, x1) {
            let u = vstd::math::abs(xx - x0) as int;
            let u2 = vstd::math::abs(xx - x1) as int;
            assert(u2 == dx - u && 0 <= u <= dx);
            assert(!slope_tie(dx, dy, u));
            lemma_slope_at_bounds(dx, dy, u);
            lemma_slope_at_complement(dx, dy, u);
            assert(slope_at(dx, dy, u2) == dy - slope_at(dx, dy, u));
            if y1 > y0 {
                assert(dy == y1 - y0);
                assert((y0 + slope_at(dx, dy, u) * sign(y1 - y0)) == (y1 + slope_at(dx, dy, u2)
                    * sign(y0 - y1)));
            } else if y1 < y0 {
                assert(dy == y0 - y1);
                assert((y0 + slope_at(dx, dy, u) * sign(y1 - y0)) == (y1 + slope_at(dx, dy, u2)
                    * sign(y0 - y1)));
            } else {
                assert(dy == 0);
                lemma_slope_at_bounds(dx, dy, u2);
            }
        }
    } else {
        if vstd::math::min(y0, y1) <= yy <= vstd::math::max(y0, y1) {
            let u = vstd::math::abs(yy - y0) as int;
            let u2 = vstd::math::abs(yy - y1) as int;
            assert(u2 == dy - u && 0 <= u <= dy);
            assert(!slope_tie(dy, dx, u));
            lemma_slope_at_bounds(dy, dx, u);
            lemma_slope_at_complement(dy, dx, u);
            assert(slope_at(dy, dx, u2) == dx - slope_at(dy, dx, u));
            if x1 > x0 {
                assert((x0 + slope_at(dy, dx, u) * sign(x1 - x0)) == (x1 + slope_at(dy, dx, u2)
                    * sign(x0 - x1)));
            } else if x1 < x0 {
                assert((x0 + slope_at(dy, dx, u) * sign(x1 - x0)) == (x1 + slope_at(dy, dx, u2)
                    * sign(x0 - x1)));
            } else {
                assert(dx == 0);
                lemma_slope_at_bounds(dy, dx, u2);
            }
        }
    }
}

/// Every cell the rasterizer lights lies in the bounding box of the two
/// endpoints.
pub proof fn lemma_line_plot_box(x0: int, y0: int, x1: int, y1: int, xx: int, yy: int)
    requires
        line_plot(x0, y0, x1, y1, xx, yy),
    ensures
        vstd::math::min(x0, x1) <= xx <= vstd::math::max(x0, x1),
        vstd::math::min(y0, y1) <= yy <= vstd::math::max(y0, y1),
{
    let dx = vstd::math::abs(x1 - x0) as int;
    let dy = vstd::math::abs(y1 - y0) as int;
    if dx >= dy {
        let u = vstd::math::abs(xx - x0) as int;
        assert(0 <= u <= dx);
        lemma_slope_at_bounds(dx, dy, u);
    } else {
        let u = vstd::math::abs(yy - y0) as int;
        assert(0 <= u <= dy);
        lemma_slope_at_bounds(dy, dx, u);
    }
}

/// Filling a rectangle is idempotent: filling the same rectangle with
/// the same color a second time leaves exactly the pixel contents the
/// first fill produced.
pub proof fn lemma_fill_rect_idempotent<T: BitMap>(
    s0: &T,
    s1: &T,
    s2: &T,
    color: u32,
    px: int,
    py: int,
    w: int,
    h: int,
)
    requires
        s0.inv(),
        s1.inv(),
        s2.inv(),
        rect_filled(s0, s1, color, px, py, w, h),
        rect_filled(s1, s2, color, px, py, w, h),
    ensures
        s2.pixels() == s1.pixels(),
{
    assert forall|xx: int, yy: int| in_grid(s1, xx, yy) implies pixel_at_spec(s1, xx, yy)
        == pixel_at_spec(s2, xx, yy) by {
        assert(in_grid(s0, xx, yy));
    }
    lemma_pointwise_equal_pixels(s1, s2);
}

/// Drawing a line is symmetric: away from rounding ties, drawing from
/// one endpoint to the other lights exactly the pixels that drawing in
/// the opposite direction lights, so the two resulting surfaces hold
/// equal pixel contents.
pub proof fn lemma_draw_line_symmetric<T: BitMap>(
    s0: &T,
    s1: &T,
    s2: &T,
    color: u32,
    x0: int,
    y0: int,
    x1: int,
    y1: int,
)
    requires
        s0.inv(),
        s1.inv(),
        s2.inv(),
        line_no_ties(x0, y0, x1, y1),
        line_drawn(s0, s1, color, x0, y0, x1, y1),
        line_drawn(s0, s2, color, x1, y1, x0, y0),
    ensures
        s1.pixels() == s2.pixels(),
{
    assert forall|xx: int, yy: int| in_grid(s1, xx, yy) implies pixel_at_spec(s1, xx, yy)
        == pixel_at_spec(s2, xx, yy) by {
        assert(in_grid(s0, xx, yy));
        lemma_line_plot_symmetric(x0, y0, x1, y1, xx, yy);
    }
    lemma_pointwise_equal_pixels(s1, s2);
}

/// One step of the rasterizer along a line whose dominant axis is x:
/// the cell plotted at step `k` is on the line, and the cells plotted
/// within `k + 1` steps are those within `k` steps plus exactly that one.
proof fn lemma_line_step_x(x0: int, y0: int, x1: int, y1: int, k: int, qx: int, qy: int)
    requires
        vstd::math::abs(x1 - x0) >= vstd::math::abs(y1 - y0),
        0 <= k <= vstd::math::abs(x1 - x0),
        qx == x0 + k * sign(x1 - x0),
        qy == y0 + slope_at(
            vstd::math::abs(x1 - x0) as int,
            vstd::math::abs(y1 - y0) as int,
            k,
        ) * sign(y1 - y0),
    ensures
        line_plot(x0, y0, x1, y1, qx, qy),
        forall|xx: int, yy: int|
            #[trigger] line_plot_upto(x0, y0, x1, y1, k + 1, xx, yy) <==> (line_plot_upto(
                x0,
                y0,
                x1,
                y1,
                k,
                xx,
                yy,
            ) || (xx == qx && yy == qy)),
{
    let dx = vstd::math::abs(x1 - x0) as int;
    let sx = sign(x1 - x0);
    if x1 > x0 {
        assert(sx == 1 && qx == x0 + k);
    } else if x1 < x0 {
        assert(sx == -1 && qx == x0 - k);
    } else {
        assert(sx == 0 && dx == 0 && k == 0 && qx == x0);
    }
    assert(vstd::math::abs(qx - x0) == k);
    assert(vstd::math::min(x0, x1) <= qx <= vstd::math::max(x0, x1));
    assert(line_plot(x0, y0, x1, y1, qx, qy));
    assert forall|xx: int, yy: int|
        #[trigger] line_plot_upto(x0, y0, x1, y1, k + 1, xx, yy) <==> (line_plot_upto(
            x0,
            y0,
            x1,
            y1,
            k,
            xx,
            yy,
        ) || (xx == qx && yy == qy)) by {
        if line_plot_upto(x0, y0, x1, y1, k + 1, xx, yy) && !line_plot_upto(
            x0,
            y0,
            x1,
            y1,
            k,
            xx,
            yy,
        ) {
            assert(vstd::math::abs(xx - x0) == k);
            if x1 > x0 {
                assert(xx >= x0);
                assert(xx == x0 + k);
            } else if x1 < x0 {
                assert(xx <= x0);
                assert(xx == x0 - k);
            } else {
                assert(xx == x0);
            }
            assert(xx == qx);
            assert(yy == qy);
        }
    }
}

/// One step of the rasterizer along a line whose dominant axis is y.
proof fn lemma_line_step_y(x0: int, y0: int, x1: int, y1: int, k: int, qx: int, qy: int)
    requires
        vstd::math::abs(y1 - y0) > vstd::math::abs(x1 - x0),
        0 <= k <= vstd::math::abs(y1 - y0),
        qy == y0 + k * sign(y1 - y0),
        qx == x0 + slope_at(
            vstd::math::abs(y1 - y0) as int,
            vstd::math::abs(x1 - x0) as int,
            k,
        ) * sign(x1 - x0),
    ensures
        line_plot(x0, y0, x1, y1, qx, qy),
        forall|xx: int, yy: int|
            #[trigger] line_plot_upto(x0, y0, x1, y1, k + 1, xx, yy) <==> (line_plot_upto(
                x0,
                y0,
                x1,
                y1,
                k,
                xx,
                yy,
            ) || (xx == qx && yy == qy)),
{
    let dy = vstd::math::abs(y1 - y0) as int;
    let sy = sign(y1 - y0);
    if y1 > y0 {
        assert(sy == 1 && qy == y0 + k);
    } else {
        assert(y1 < y0 && sy == -1 && qy == y0 - k);
    }
    assert(vstd::math::abs(qy - y0) == k);
    assert(vstd::math::min(y0, y1) <= qy <= vstd::math::max(y0, y1));
    assert(line_plot(x0, y0, x1, y1, qx, qy));
    assert forall|xx: int, yy: int|
        #[trigger] line_plot_upto(x0, y0, x1, y1, k + 1, xx, yy) <==> (line_plot_upto(
            x0,
            y0,
            x1,
            y1,
            k,
            xx,
            yy,
        ) || (xx == qx && yy == qy)) by {
        if line_plot_upto(x0, y0, x1, y1, k + 1, xx, yy) && !line_plot_upto(
            x0,
            y0,
            x1,
            y1,
            k,
            xx,
            yy,
        ) {
            assert(vstd::math::abs(yy - y0) == k);
            if y1 > y0 {
                assert(yy == y0 + k);
            } else {
                assert(yy == y0 - k);
            }
            assert(yy == qy);
            assert(xx == qx);
        }
    }
}

/// What a line draw does: every plotted cell now holds `color`, every
/// other cell is unchanged, and the geometry is untouched.
pub open spec fn line_drawn<T: BitMap>(
    pre: &T,
    post: &T,
    color: u32,
    x0: int,
    y0: int,
    x1: int,
    y1: int,
) -> bool {
    &&& same_geometry(pre, post)
    &&& forall|xx: int, yy: int|
        in_grid(pre, xx, yy) ==> pixel_at_spec(post, xx, yy) == if line_plot(x0, y0, x1, y1, xx, yy) {
            color
        } else {
            pixel_at_spec(pre, xx, yy)
        }
}

/// Draws the line from `(x0, y0)` to `(x1, y1)` with the integer
/// midpoint-stepping rasterizer: one pixel per unit step along the
/// dominant axis, endpoints included, single-pixel thick and gap-free.
///
/// Fails immediately, writing nothing, if either endpoint is out of
/// range; every plotted intermediate cell then lies between the
/// endpoints and needs no further checking.
pub fn draw_line<T: BitMap>(buf: &mut T, color: u32, x0: i64, y0: i64, x1: i64, y1: i64) -> (r:
    Result<(), Error>)
    requires
        old(buf).inv(),
    ensures
        final(buf).inv(),
        r == if endpoints_in_range(old(buf), x0 as int, y0 as int, x1 as int, y1 as int) {
            Ok::<(), Error>(())
        } else {
            Err::<(), Error>(Error::OutOfRange)
        },
        endpoints_in_range(old(buf), x0 as int, y0 as int, x1 as int, y1 as int) ==> line_drawn(
            old(buf),
            final(buf),
            color,
            x0 as int,
            y0 as int,
            x1 as int,
            y1 as int,
        ),
        !endpoints_in_range(old(buf), x0 as int, y0 as int, x1 as int, y1 as int) ==> *final(buf)
            == *old(buf),
{
    let ghost x0i = x0 as int;
    let ghost y0i = y0 as int;
    let ghost x1i = x1 as int;
    let ghost y1i = y1 as int;
    if !(buf.is_in_x_range(x0) && buf.is_in_x_range(x1) && buf.is_in_y_range(y0)
        && buf.is_in_y_range(y1)) {
        return Err(Error::OutOfRange);
    }
    let w = buf.width();
    let h = buf.height();
    assert(x0 < w && x1 < w && y0 < h && y1 < h);
    let dx: i64 = if x1 >= x0 {
        x1 - x0
    } else {
        x0 - x1
    };
    let sx: i64 = if x1 > x0 {
        1
    } else if x1 < x0 {
        -1
    } else {
        0
    };
    let dy: i64 = if y1 >= y0 {
        y1 - y0
    } else {
        y0 - y1
    };
    let sy: i64 = if y1 > y0 {
        1
    } else if y1 < y0 {
        -1
    } else {
        0
    };
    if dx >= dy {
        let mut rx: i64 = 0;
        while rx <= dx
            invariant
                old(buf).inv(),
                buf.inv(),
                same_geometry(old(buf), buf),
                endpoints_in_range(old(buf), x0i, y0i, x1i, y1i),
                x0i == x0 as int && y0i == y0 as int && x1i == x1 as int && y1i == y1 as int,
                dx as int == vstd::math::abs(x1i - x0i),
                dy as int == vstd::math::abs(y1i - y0i),
                dx >= dy,
                sx as int == sign(x1i - x0i),
                sy as int == sign(y1i - y0i),
                dx < i64::MAX,
                0 <= rx <= dx + 1,
                forall|xx: int, yy: int|
                    in_grid(old(buf), xx, yy) ==> pixel_at_spec(buf, xx, yy) == if line_plot_upto(
                        x0i,
                        y0i,
                        x1i,
                        y1i,
                        rx as int,
                        xx,
                        yy,
                    ) {
                        color
                    } else {
                        pixel_at_spec(old(buf), xx, yy)
                    },
            decreases dx + 1 - rx,
        {
            let ry: i64 = match calc_slope_point(dx, dy, rx) {
                Some(v) => v,
                None => 0,
            };
            let qx: i64 = if sx == 1 {
                x0 + rx
            } else if sx == -1 {
                x0 - rx
            } else {
                x0
            };
            let qy: i64 = if sy == 1 {
                y0 + ry
            } else if sy == -1 {
                y0 - ry
            } else {
                y0
            };
            proof {
                let rxi = rx as int;
                let sxi = sx as int;
                let ryi = ry as int;
                let syi = sy as int;
                assert(rxi * sxi == if sxi == 1 {
                    rxi
                } else if sxi == -1 {
                    -rxi
                } else {
                    0
                }) by (nonlinear_arith)
                    requires
                        sxi == 1 || sxi == -1 || sxi == 0,
                ;
                assert(ryi * syi == if syi == 1 {
                    ryi
                } else if syi == -1 {
                    -ryi
                } else {
                    0
                }) by (nonlinear_arith)
                    requires
                        syi == 1 || syi == -1 || syi == 0,
                ;
                assert(qx as int == x0i + (rx as int) * (sx as int));
                assert(qy as int == y0i + (ry as int) * (sy as int));
                assert(ry as int == slope_at(dx as int, dy as int, rx as int));
                lemma_line_step_x(x0i, y0i, x1i, y1i, rx as int, qx as int, qy as int);
                assert(valid_point(old(buf), qx as int, qy as int));
            }
            unchecked_draw_point(buf, color, qx, qy);
            proof {
                assert forall|xx: int, yy: int| in_grid(old(buf), xx, yy) implies pixel_at_spec(
                    buf,
                    xx,
                    yy,
                ) == if line_plot_upto(x0i, y0i, x1i, y1i, rx as int + 1, xx, yy) {
                    color
                } else {
                    pixel_at_spec(old(buf), xx, yy)
                } by {
                    assert(line_plot_upto(x0i, y0i, x1i, y1i, rx as int + 1, xx, yy)
                        <==> (line_plot_upto(x0i, y0i, x1i, y1i, rx as int, xx, yy) || (xx
                        == qx as int && yy == qy as int)));
                }
            }
            rx = rx + 1;
        }
        proof {
            assert forall|xx: int, yy: int| in_grid(old(buf), xx, yy) implies pixel_at_spec(
                buf,
                xx,
                yy,
            ) == if line_plot(x0i, y0i, x1i, y1i, xx, yy) {
                color
            } else {
                pixel_at_spec(old(buf), xx, yy)
            } by {
                if line_plot(x0i, y0i, x1i, y1i, xx, yy) {
                    assert(vstd::math::abs(xx - x0i) <= dx);
                    assert(line_plot_upto(x0i, y0i, x1i, y1i, dx as int + 1, xx, yy));
                }
            }
        }
        Ok(())
    } else {
        let mut ry: i64 = 0;
        while ry <= dy
            invariant
                old(buf).inv(),
                buf.inv(),
                same_geometry(old(buf), buf),
                endpoints_in_range(old(buf), x0i, y0i, x1i, y1i),
                x0i == x0 as int && y0i == y0 as int && x1i == x1 as int && y1i == y1 as int,
                dx as int == vstd::math::abs(x1i - x0i),
                dy as int == vstd::math::abs(y1i - y0i),
                dy > dx,
                sx as int == sign(x1i - x0i),
                sy as int == sign(y1i - y0i),
                dy < i64::MAX,
                0 <= ry <= dy + 1,
                forall|xx: int, yy: int|
                    in_grid(old(buf), xx, yy) ==> pixel_at_spec(buf, xx, yy) == if line_plot_upto(
                        x0i,
                        y0i,
                        x1i,
                        y1i,
                        ry as int,
                        xx,
                        yy,
                    ) {
                        color
                    } else {
                        pixel_at_spec(old(buf), xx, yy)
                    },
            decreases dy + 1 - ry,
        {
            let rxv: i64 = match calc_slope_point(dy, dx, ry) {
                Some(v) => v,
                None => 0,
            };
            let qx: i64 = if sx == 1 {
                x0 + rxv
            } else if sx == -1 {
                x0 - rxv
            } else {
                x0
            };
            let qy: i64 = if sy == 1 {
                y0 + ry
            } else if sy == -1 {
                y0 - ry
            } else {
                y0
            };
            proof {
                let rxi = rxv as int;
                let sxi = sx as int;
                let ryi = ry as int;
                let syi = sy as int;
                assert(rxi * sxi == if sxi == 1 {
                    rxi
                } else if sxi == -1 {
                    -rxi
                } else {
                    0
                }) by (nonlinear_arith)
                    requires
                        sxi == 1 || sxi == -1 || sxi == 0,
                ;
                assert(ryi * syi == if syi == 1 {
                    ryi
                } else if syi == -1 {
                    -ryi
                } else {
                    0
                }) by (nonlinear_arith)
                    requires
                        syi == 1 || syi == -1 || syi == 0,
                ;
                assert(qx as int == x0i + (rxv as int) * (sx as int));
                assert(qy as int == y0i + (ry as int) * (sy as int));
                assert(rxv as int == slope_at(dy as int, dx as int, ry as int));
                lemma_line_step_y(x0i, y0i, x1i, y1i, ry as int, qx as int, qy as int);
                assert(valid_point(old(buf), qx as int, qy as int));
            }
            unchecked_draw_point(buf, color, qx, qy);
            proof {
                assert forall|xx: int, yy: int| in_grid(old(buf), xx, yy) implies pixel_at_spec(
                    buf,
                    xx,
                    yy,
                ) == if line_plot_upto(x0i, y0i, x1i, y1i, ry as int + 1, xx, yy) {
                    color
                } else {
                    pixel_at_spec(old(buf), xx, yy)
                } by {
                    assert(line_plot_upto(x0i, y0i, x1i, y1i, ry as int + 1, xx, yy)
                        <==> (line_plot_upto(x0i, y0i, x1i, y1i, ry as int, xx, yy) || (xx
                        == qx as int && yy == qy as int)));
                }
            }
            ry = ry + 1;
        }
        proof {
            assert forall|xx: int, yy: int| in_grid(old(buf), xx, yy) implies pixel_at_spec(
                buf,
                xx,
                yy,
            ) == if line_plot(x0i, y0i, x1i, y1i, xx, yy) {
                color
            } else {
                pixel_at_spec(old(buf), xx, yy)
            } by {
                if line_plot(x0i, y0i, x1i, y1i, xx, yy) {
                    assert(vstd::math::abs(yy - y0i) <= dy);
                    assert(line_plot_upto(x0i, y0i, x1i, y1i, dy as int + 1, xx, yy));
                }
            }
        }
        Ok(())
    }
}

/// Whether drawing the glyph for `c` with its top-left cell at `(x, y)`
/// paints the cell `(xx, yy)`: the character has a glyph, the cell lies
/// in the 8 x 16 glyph box, and the glyph bit for it is set.
pub open spec fn glyph_paints(c: char, x: int, y: int, xx: int, yy: int) -> bool {
    &&& spec_font(c) is Some
    &&& x <= xx < x + 8
    &&& y <= yy < y + 16
    &&& glyph_cell(spec_font(c).unwrap(), xx - x, yy - y)
}

/// The glyph cells painted before the rasterizer reaches row `rb`,
/// column `cb` of the glyph box (rows outer, columns inner).
spec fn glyph_paints_before(c: char, x: int, y: int, rb: int, cb: int, xx: int, yy: int) -> bool {
    &&& glyph_paints(c, x, y, xx, yy)
    &&& (yy - y < rb || (yy - y == rb && xx - x < cb))
}

/// Draws the 16 x 8 glyph for `c` with its top-left corner at `(x, y)`:
/// a no-op if the character has no glyph; every set cell is drawn
/// through the checked accessor, so out-of-surface cells are silently
/// skipped rather than aborting the whole glyph.
pub fn draw_font_fg<T: BitMap>(buf: &mut T, x: i64, y: i64, color: u32, c: char)
    requires
        old(buf).inv(),
    ensures
        final(buf).inv(),
        same_geometry(old(buf), final(buf)),
        forall|xx: int, yy: int|
            in_grid(old(buf), xx, yy) ==> pixel_at_spec(final(buf), xx, yy) == if glyph_paints(
                c,
                x as int,
                y as int,
                xx,
                yy,
            ) && valid_point(old(buf), xx, yy) {
                color
            } else {
                pixel_at_spec(old(buf), xx, yy)
            },
{
    let w = buf.width();
    let h = buf.height();
    let rows = match lookup_font(c) {
        None => {
            return ;
        },
        Some(rows) => rows,
    };
    let mut dy: usize = 0;
    while dy < 16
        invariant
            old(buf).inv(),
            buf.inv(),
            same_geometry(old(buf), buf),
            spec_font(c) is Some,
            rows@ == spec_font(c).unwrap(),
            w as int == old(buf).spec_width(),
            h as int == old(buf).spec_height(),
            0 <= dy <= 16,
            forall|xx: int, yy: int|
                in_grid(old(buf), xx, yy) ==> pixel_at_spec(buf, xx, yy) == if glyph_paints_before(
                    c,
                    x as int,
                    y as int,
                    dy as int,
                    0,
                    xx,
                    yy,
                ) && valid_point(old(buf), xx, yy) {
                    color
                } else {
                    pixel_at_spec(old(buf), xx, yy)
                },
        decreases 16 - dy,
    {
        let row: u8 = rows[dy];
        let mut dx: usize = 0;
        while dx < 8
            invariant
                old(buf).inv(),
                buf.inv(),
                same_geometry(old(buf), buf),
                spec_font(c) is Some,
                rows@ == spec_font(c).unwrap(),
                row == rows@[dy as int],
                w as int == old(buf).spec_width(),
                h as int == old(buf).spec_height(),
                0 <= dy < 16,
                0 <= dx <= 8,
                forall|xx: int, yy: int|
                    in_grid(old(buf), xx, yy) ==> pixel_at_spec(buf, xx, yy) == if
                        glyph_paints_before(
                        c,
                        x as int,
                        y as int,
                        dy as int,
                        dx as int,
                        xx,
                        yy,
                    ) && valid_point(old(buf), xx, yy) {
                        color
                    } else {
                        pixel_at_spec(old(buf), xx, yy)
                    },
            decreases 8 - dx,
        {
            let cell_set = (row >> ((7 - dx) as u8)) & 1 == 1;
            proof {
                assert(cell_set == glyph_cell(spec_font(c).unwrap(), dx as int, dy as int));
            }
            if cell_set && x <= i64::MAX - (dx as i64) && y <= i64::MAX - (dy as i64) {
                let qx: i64 = x + dx as i64;
                let qy: i64 = y + dy as i64;
                let _ = draw_point(buf, color, qx, qy);
            }
            proof {
                let xi = x as int;
                let yi = y as int;
                let qxi = xi + dx as int;
                let qyi = yi + dy as int;
                if !(cell_set && xi <= i64::MAX - dx && yi <= i64::MAX - dy) {
                    if cell_set {
                        assert(qxi > i64::MAX || qyi > i64::MAX);
                        assert(!valid_point(old(buf), qxi, qyi));
                    }
                }
                assert forall|xx: int, yy: int| in_grid(old(buf), xx, yy) implies pixel_at_spec(
                    buf,
                    xx,
                    yy,
                ) == if glyph_paints_before(c, xi, yi, dy as int, dx as int + 1, xx, yy)
                    && valid_point(old(buf), xx, yy) {
                    color
                } else {
                    pixel_at_spec(old(buf), xx, yy)
                } by {
                    if glyph_paints_before(c, xi, yi, dy as int, dx as int + 1, xx, yy)
                        && !glyph_paints_before(c, xi, yi, dy as int, dx as int, xx, yy) {
                        assert(xx == qxi && yy == qyi);
                        assert(glyph_cell(spec_font(c).unwrap(), dx as int, dy as int));
                    }
                }
            }
            dx = dx + 1;
        }
        proof {
            assert forall|xx: int, yy: int|
                glyph_paints_before(c, x as int, y as int, dy as int + 1, 0, xx, yy)
                    == glyph_paints_before(c, x as int, y as int, dy as int, 8, xx, yy) by {}
        }
        dy = dy + 1;
    }
}

/// One character cell of a string drawn at `(x, y)`: whether the glyph
/// of `s[i]`, placed `8 * i` pixels to the right, paints `(xx, yy)`.
pub open spec fn str_cell_paints(s: Seq<char>, x: int, y: int, i: int, xx: int, yy: int) -> bool {
    glyph_paints(s[i], x + 8 * i, y, xx, yy)
}

/// Whether drawing the string `s` at `(x, y)` paints cell `(xx, yy)`:
/// some character of `s`, advanced by a fixed 8-pixel cell per
/// character, paints it.
pub open spec fn str_paints(s: Seq<char>, x: int, y: int, xx: int, yy: int) -> bool {
    exists|i: int| 0 <= i < s.len() && #[trigger] str_cell_paints(s, x, y, i, xx, yy)
}

spec fn str_paints_before(s: Seq<char>, x: int, y: int, k: int, xx: int, yy: int) -> bool {
    exists|i: int| 0 <= i < k && i < s.len() && #[trigger] str_cell_paints(s, x, y, i, xx, yy)
}

/// Renders each character of `s` through the glyph rasterizer,
/// advancing the cursor by a fixed 8-pixel horizontal cell per
/// character. Characters without a glyph, and cells off the surface,
/// are silently skipped.
pub fn draw_str_fg<T: BitMap>(buf: &mut T, x: i64, y: i64, color: u32, s: &str)
    requires
        old(buf).inv(),
    ensures
        final(buf).inv(),
        same_geometry(old(buf), final(buf)),
        forall|xx: int, yy: int|
            in_grid(old(buf), xx, yy) ==> pixel_at_spec(final(buf), xx, yy) == if str_paints(
                s@,
                x as int,
                y as int,
                xx,
                yy,
            ) && valid_point(old(buf), xx, yy) {
                color
            } else {
                pixel_at_spec(old(buf), xx, yy)
            },
{
    let w = buf.width();
    let n: usize = s.unicode_len();
    let mut i: usize = 0;
    while i < n
        invariant
            old(buf).inv(),
            buf.inv(),
            same_geometry(old(buf), buf),
            w as int == old(buf).spec_width(),
            n == s@.len(),
            0 <= i <= n,
            forall|xx: int, yy: int|
                in_grid(old(buf), xx, yy) ==> pixel_at_spec(buf, xx, yy) == if str_paints_before(
                    s@,
                    x as int,
                    y as int,
                    i as int,
                    xx,
                    yy,
                ) && valid_point(old(buf), xx, yy) {
                    color
                } else {
                    pixel_at_spec(old(buf), xx, yy)
                },
        decreases n - i,
    {
        let c = s.get_char(i);
        let qx128: i128 = x as i128 + 8 * (i as i128);
        if qx128 <= i64::MAX as i128 {
            let qx: i64 = qx128 as i64;
            draw_font_fg(buf, qx, y, color, c);
            proof {
                let xi = x as int;
                let yi = y as int;
                assert forall|xx: int, yy: int| in_grid(old(buf), xx, yy) implies pixel_at_spec(
                    buf,
                    xx,
                    yy,
                ) == if str_paints_before(s@, xi, yi, i as int + 1, xx, yy) && valid_point(
                    old(buf),
                    xx,
                    yy,
                ) {
                    color
                } else {
                    pixel_at_spec(old(buf), xx, yy)
                } by {
                    if glyph_paints(c, qx as int, yi, xx, yy) {
                        assert(str_cell_paints(s@, xi, yi, i as int, xx, yy));
                    }
                    if str_paints_before(s@, xi, yi, i as int + 1, xx, yy) && !str_paints_before(
                        s@,
                        xi,
                        yi,
                        i as int,
                        xx,
                        yy,
                    ) {
                        assert(str_cell_paints(s@, xi, yi, i as int, xx, yy));
                        assert(glyph_paints(c, qx as int, yi, xx, yy));
                    }
                }
            }
        } else {
            proof {
                let xi = x as int;
                let yi = y as int;
                assert forall|xx: int, yy: int| in_grid(old(buf), xx, yy) implies pixel_at_spec(
                    buf,
                    xx,
                    yy,
                ) == if str_paints_before(s@, xi, yi, i as int + 1, xx, yy) && valid_point(
                    old(buf),
                    xx,
                    yy,
                ) {
                    color
                } else {
                    pixel_at_spec(old(buf), xx, yy)
                } by {
                    if str_paints_before(s@, xi, yi, i as int + 1, xx, yy) && !str_paints_before(
                        s@,
                        xi,
                        yi,
                        i as int,
                        xx,
                        yy,
                    ) {
                        assert(str_cell_paints(s@, xi, yi, i as int, xx, yy));
                        assert(xx >= xi + 8 * (i as int) && xi + 8 * (i as int) > i64::MAX);
                        assert(!valid_point(old(buf), xx, yy));
                    }
                }
            }
        }
        i = i + 1;
    }
}


/// Draws the boot-time diagnostic pattern in a 129-pixel-wide band at
/// the right edge of the surface: four pairs of color and inverted
/// color squares, a star of white lines over the top squares, and two
/// rows of green hex digits below them.
///
/// The contract pins the pattern where nothing overlaps: everything
/// left of the band and everything below the text is untouched, and
/// the rows between the line star and the text (129 to 255) hold
/// exactly the third and fourth square pair.
#[verifier::rlimit(60)]
pub fn draw_test_pattern<T: BitMap>(buf: &mut T)
    requires
        old(buf).inv(),
        old(buf).spec_width() >= 129,
        old(buf).spec_height() >= 256,
        old(buf).spec_pixels_per_line() >= old(buf).spec_width(),
    ensures
        final(buf).inv(),
        same_geometry(old(buf), final(buf)),
        forall|xx: int, yy: int|
            in_grid(old(buf), xx, yy) && xx < old(buf).spec_width() - 129 ==> pixel_at_spec(
                final(buf),
                xx,
                yy,
            ) == pixel_at_spec(old(buf), xx, yy),
        forall|xx: int, yy: int|
            in_grid(old(buf), xx, yy) && yy >= 288 ==> pixel_at_spec(final(buf), xx, yy)
                == pixel_at_spec(old(buf), xx, yy),
        forall|xx: int, yy: int|
            in_grid(old(buf), xx, yy) && 129 <= yy < 256 ==> pixel_at_spec(final(buf), xx, yy)
                == (if old(buf).spec_width() - 129 <= xx < old(buf).spec_width() - 65 {
                if yy < 192 {
                    0x00ff00u32
                } else {
                    0x0000ffu32
                }
            } else if old(buf).spec_width() - 65 <= xx < old(buf).spec_width() - 1 {
                if yy < 192 {
                    !0x00ff00u32
                } else {
                    !0x0000ffu32
                }
            } else {
                pixel_at_spec(old(buf), xx, yy)
            }),
{
    let w = buf.width();
    let left: i64 = w - 129;
    let ghost lefti = left as int;
    let _ = fill_rect(buf, 0x000000, left, 0, 64, 64);
    let _ = fill_rect(buf, !0x000000u32, left + 64, 0, 64, 64);
    let _ = fill_rect(buf, 0xff0000, left, 64, 64, 64);
    let _ = fill_rect(buf, !0xff0000u32, left + 64, 64, 64, 64);
    let _ = fill_rect(buf, 0x00ff00, left, 128, 64, 64);
    let _ = fill_rect(buf, !0x00ff00u32, left + 64, 128, 64, 64);
    let _ = fill_rect(buf, 0x0000ff, left, 192, 64, 64);
    let _ = fill_rect(buf, !0x0000ffu32, left + 64, 192, 64, 64);
    let ghost mid = *buf;
    proof {
        assert(same_geometry(old(buf), &mid));
        assert(forall|xx: int, yy: int|
            in_grid(old(buf), xx, yy) && (xx < lefti || yy >= 256) ==> pixel_at_spec(&mid, xx, yy)
                == pixel_at_spec(old(buf), xx, yy));
        assert(forall|xx: int, yy: int|
            in_grid(old(buf), xx, yy) && 129 <= yy < 256 ==> pixel_at_spec(&mid, xx, yy) == (if
            lefti <= xx < lefti + 64 {
                if yy < 192 {
                    0x00ff00u32
                } else {
                    0x0000ffu32
                }
            } else if lefti + 64 <= xx < lefti + 128 {
                if yy < 192 {
                    !0x00ff00u32
                } else {
                    !0x0000ffu32
                }
            } else {
                pixel_at_spec(old(buf), xx, yy)
            }));
    }
    let points_x: [i64; 4] = [0, 0, 128, 128];
    let points_y: [i64; 4] = [0, 128, 0, 128];
    proof {
        assert(points_x@ =~= seq![0i64, 0i64, 128i64, 128i64]);
        assert(points_y@ =~= seq![0i64, 128i64, 0i64, 128i64]);
    }
    let mut a: usize = 0;
    while a < 4
        invariant
            mid.inv(),
            buf.inv(),
            same_geometry(&mid, buf),
            0 <= a <= 4,
            lefti == mid.spec_width() - 129,
            left == lefti,
            mid.spec_width() >= 129,
            mid.spec_width() <= i64::MAX,
            mid.spec_height() >= 256,
            points_x@ =~= seq![0i64, 0i64, 128i64, 128i64],
            points_y@ =~= seq![0i64, 128i64, 0i64, 128i64],
            forall|xx: int, yy: int|
                in_grid(&mid, xx, yy) && (xx < lefti || yy >= 129) ==> pixel_at_spec(buf, xx, yy)
                    == pixel_at_spec(&mid, xx, yy),
        decreases 4 - a,
    {
        let mut b: usize = 0;
        while b < 4
            invariant
                mid.inv(),
                buf.inv(),
                same_geometry(&mid, buf),
                0 <= a < 4,
                0 <= b <= 4,
                lefti == mid.spec_width() - 129,
                left == lefti,
                mid.spec_width() >= 129,
                mid.spec_width() <= i64::MAX,
                mid.spec_height() >= 256,
                points_x@ =~= seq![0i64, 0i64, 128i64, 128i64],
                points_y@ =~= seq![0i64, 128i64, 0i64, 128i64],
                forall|xx: int, yy: int|
                    in_grid(&mid, xx, yy) && (xx < lefti || yy >= 129) ==> pixel_at_spec(
                        buf,
                        xx,
                        yy,
                    ) == pixel_at_spec(&mid, xx, yy),
            decreases 4 - b,
        {
            let x0 = left + points_x[a];
            let y0 = points_y[a];
            let x1 = left + points_x[b];
            let y1 = points_y[b];
            proof {
                assert(lefti <= x0 as int <= lefti + 128 && lefti <= x1 as int <= lefti + 128
                    && 0 <= y0 as int <= 128 && 0 <= y1 as int <= 128);
            }
            let _ = draw_line(buf, 0xffffff, x0, y0, x1, y1);
            proof {
                assert forall|xx: int, yy: int|
                    in_grid(&mid, xx, yy) && (xx < lefti || yy >= 129) implies pixel_at_spec(
                    buf,
                    xx,
                    yy,
                ) == pixel_at_spec(&mid, xx, yy) by {
                    if line_plot(x0 as int, y0 as int, x1 as int, y1 as int, xx, yy) {
                        lemma_line_plot_box(x0 as int, y0 as int, x1 as int, y1 as int, xx, yy);
                    }
                }
            }
            b = b + 1;
        }
        a = a + 1;
    }
    let ghost lined = *buf;
    draw_str_fg(buf, left, 256, 0x00ff00, "0123456789");
    let ghost texted1 = *buf;
    proof {
        assert forall|xx: int, yy: int|
            in_grid(&lined, xx, yy) && !(256 <= yy < 272 && xx >= lefti) implies pixel_at_spec(
            buf,
            xx,
            yy,
        ) == pixel_at_spec(&lined, xx, yy) by {
            if str_paints(("0123456789")@, lefti, 256, xx, yy) {
                let i = choose|i: int|
                    0 <= i < ("0123456789")@.len() && #[trigger] str_cell_paints(
                        ("0123456789")@,
                        lefti,
                        256,
                        i,
                        xx,
                        yy,
                    );
                assert(256 <= yy < 272 && xx >= lefti + 8 * i && i >= 0);
            }
        }
    }
    draw_str_fg(buf, left, 272, 0x00ff00, "ABCDEF");
    proof {
        assert forall|xx: int, yy: int|
            in_grid(&texted1, xx, yy) && !(272 <= yy < 288 && xx >= lefti) implies pixel_at_spec(
            buf,
            xx,
            yy,
        ) == pixel_at_spec(&texted1, xx, yy) by {
            if str_paints(("ABCDEF")@, lefti, 272, xx, yy) {
                let i = choose|i: int|
                    0 <= i < ("ABCDEF")@.len() && #[trigger] str_cell_paints(
                        ("ABCDEF")@,
                        lefti,
                        272,
                        i,
                        xx,
                        yy,
                    );
                assert(272 <= yy < 288 && xx >= lefti + 8 * i && i >= 0);
            }
        }
        assert forall|xx: int, yy: int|
            in_grid(old(buf), xx, yy) && (xx < lefti || yy >= 288 || 129 <= yy < 256) implies
            pixel_at_spec(buf, xx, yy) == pixel_at_spec(&mid, xx, yy) by {
            assert(in_grid(&mid, xx, yy));
            assert(in_grid(&lined, xx, yy));
            assert(in_grid(&texted1, xx, yy));
            assert(pixel_at_spec(&lined, xx, yy) == pixel_at_spec(&mid, xx, yy));
            assert(pixel_at_spec(&texted1, xx, yy) == pixel_at_spec(&lined, xx, yy));
        }
        assert forall|xx: int, yy: int|
            in_grid(old(buf), xx, yy) && xx < old(buf).spec_width() - 129 implies pixel_at_spec(
            buf,
            xx,
            yy,
        ) == pixel_at_spec(old(buf), xx, yy) by {
            assert(xx < lefti);
            assert(pixel_at_spec(buf, xx, yy) == pixel_at_spec(&mid, xx, yy));
            assert(pixel_at_spec(&mid, xx, yy) == pixel_at_spec(old(buf), xx, yy));
        }
        assert forall|xx: int, yy: int|
            in_grid(old(buf), xx, yy) && yy >= 288 implies pixel_at_spec(buf, xx, yy)
            == pixel_at_spec(old(buf), xx, yy) by {
            assert(pixel_at_spec(buf, xx, yy) == pixel_at_spec(&mid, xx, yy));
            assert(pixel_at_spec(&mid, xx, yy) == pixel_at_spec(old(buf), xx, yy));
        }
        assert forall|xx: int, yy: int|
            in_grid(old(buf), xx, yy) && 129 <= yy < 256 implies pixel_at_spec(buf, xx, yy) == (
        if lefti <= xx < lefti + 64 {
            if yy < 192 {
                0x00ff00u32
            } else {
                0x0000ffu32
            }
        } else if lefti + 64 <= xx < lefti + 128 {
            if yy < 192 {
                !0x00ff00u32
            } else {
                !0x0000ffu32
            }
        } else {
            pixel_at_spec(old(buf), xx, yy)
        }) by {
            assert(pixel_at_spec(buf, xx, yy) == pixel_at_spec(&mid, xx, yy));
        }
    }
}

/// The cursor position before drawing character `j` of a text run that
/// starts at `(cx0, cy0)`: each ordinary character advances 8 pixels to
/// the right; a newline advances 16 pixels down and resets the
/// horizontal position.
pub open spec fn cursor_after(s: Seq<char>, j: int, cx0: int, cy0: int) -> (int, int)
    decreases j,
{
    if j <= 0 {
        (cx0, cy0)
    } else {
        let prev = cursor_after(s, j - 1, cx0, cy0);
        if s[j - 1] == '\n' {
            (0, prev.1 + 16)
        } else {
            (prev.0 + 8, prev.1)
        }
    }
}

/// Whether character `j` of the text run paints cell `(xx, yy)`:
/// newlines paint nothing, every other character paints its glyph at
/// the cursor position reached before it.
pub open spec fn text_cell_paints(
    s: Seq<char>,
    cx0: int,
    cy0: int,
    j: int,
    xx: int,
    yy: int,
) -> bool {
    &&& s[j] != '\n'
    &&& glyph_paints(
        s[j],
        cursor_after(s, j, cx0, cy0).0,
        cursor_after(s, j, cx0, cy0).1,
        xx,
        yy,
    )
}

/// Whether the text run paints cell `(xx, yy)`.
pub open spec fn text_paints(s: Seq<char>, cx0: int, cy0: int, xx: int, yy: int) -> bool {
    exists|j: int| 0 <= j < s.len() && #[trigger] text_cell_paints(s, cx0, cy0, j, xx, yy)
}

spec fn text_paints_before(s: Seq<char>, cx0: int, cy0: int, k: int, xx: int, yy: int) -> bool {
    exists|j: int| 0 <= j < k && j < s.len() && #[trigger] text_cell_paints(s, cx0, cy0, j, xx, yy)
}

/// A line-oriented text cursor over a pixel surface: renders white
/// glyphs left to right, 8 pixels per character cell, and a newline
/// moves 16 pixels down and back to the left edge.
pub struct VramTextWriter {
    pub cursor_x: i64,
    pub cursor_y: i64,
}

impl VramTextWriter {
    /// A fresh cursor at the surface origin.
    pub fn new() -> (r: VramTextWriter)
        ensures
            r.cursor_x == 0,
            r.cursor_y == 0,
    {
        VramTextWriter { cursor_x: 0, cursor_y: 0 }
    }

    /// Renders `s` in white at the cursor and advances it. The bounds
    /// asked for keep the cursor arithmetic inside the machine word.
    pub fn write_str<T: BitMap>(&mut self, vram: &mut T, s: &str)
        requires
            old(vram).inv(),
            0 <= old(self).cursor_x,
            0 <= old(self).cursor_y,
            old(self).cursor_x + 8 * s@.len() <= i64::MAX,
            old(self).cursor_y + 16 * s@.len() <= i64::MAX,
        ensures
            final(vram).inv(),
            same_geometry(old(vram), final(vram)),
            (final(self).cursor_x as int, final(self).cursor_y as int) == cursor_after(
                s@,
                s@.len() as int,
                old(self).cursor_x as int,
                old(self).cursor_y as int,
            ),
            forall|xx: int, yy: int|
                in_grid(old(vram), xx, yy) ==> pixel_at_spec(final(vram), xx, yy) == if text_paints(
                    s@,
                    old(self).cursor_x as int,
                    old(self).cursor_y as int,
                    xx,
                    yy,
                ) && valid_point(old(vram), xx, yy) {
                    0xffffffu32
                } else {
                    pixel_at_spec(old(vram), xx, yy)
                },
    {
        let ghost cx0 = old(self).cursor_x as int;
        let ghost cy0 = old(self).cursor_y as int;
        let n: usize = s.unicode_len();
        let mut i: usize = 0;
        while i < n
            invariant
                old(vram).inv(),
                vram.inv(),
                same_geometry(old(vram), vram),
                n == s@.len(),
                0 <= i <= n,
                cx0 == old(self).cursor_x as int,
                cy0 == old(self).cursor_y as int,
                0 <= cx0,
                0 <= cy0,
                cx0 + 8 * n <= i64::MAX,
                cy0 + 16 * n <= i64::MAX,
                0 <= self.cursor_x,
                0 <= self.cursor_y,
                self.cursor_x as int <= cx0 + 8 * i,
                self.cursor_y as int <= cy0 + 16 * i,
                (self.cursor_x as int, self.cursor_y as int) == cursor_after(s@, i as int, cx0, cy0),
                forall|xx: int, yy: int|
                    in_grid(old(vram), xx, yy) ==> pixel_at_spec(vram, xx, yy) == if
                        text_paints_before(s@, cx0, cy0, i as int, xx, yy) && valid_point(
                        old(vram),
                        xx,
                        yy,
                    ) {
                        0xffffffu32
                    } else {
                        pixel_at_spec(old(vram), xx, yy)
                    },
            decreases n - i,
        {
            let c = s.get_char(i);
            if c == '\n' {
                self.cursor_y = self.cursor_y + 16;
                self.cursor_x = 0;
                proof {
                    assert forall|xx: int, yy: int| in_grid(old(vram), xx, yy) implies
                        pixel_at_spec(vram, xx, yy) == if text_paints_before(
                        s@,
                        cx0,
                        cy0,
                        i as int + 1,
                        xx,
                        yy,
                    ) && valid_point(old(vram), xx, yy) {
                        0xffffffu32
                    } else {
                        pixel_at_spec(old(vram), xx, yy)
                    } by {
                        if text_paints_before(s@, cx0, cy0, i as int + 1, xx, yy)
                            && !text_paints_before(s@, cx0, cy0, i as int, xx, yy) {
                            assert(text_cell_paints(s@, cx0, cy0, i as int, xx, yy));
                            assert(false);
                        }
                    }
                }
            } else {
                let qx = self.cursor_x;
                let qy = self.cursor_y;
                draw_font_fg(vram, qx, qy, 0xffffff, c);
                proof {
                    assert forall|xx: int, yy: int| in_grid(old(vram), xx, yy) implies
                        pixel_at_spec(vram, xx, yy) == if text_paints_before(
                        s@,
                        cx0,
                        cy0,
                        i as int + 1,
                        xx,
                        yy,
                    ) && valid_point(old(vram), xx, yy) {
                        0xffffffu32
                    } else {
                        pixel_at_spec(old(vram), xx, yy)
                    } by {
                        if glyph_paints(c, qx as int, qy as int, xx, yy) {
                            assert(text_cell_paints(s@, cx0, cy0, i as int, xx, yy));
                        }
                        if text_paints_before(s@, cx0, cy0, i as int + 1, xx, yy)
                            && !text_paints_before(s@, cx0, cy0, i as int, xx, yy) {
                            assert(text_cell_paints(s@, cx0, cy0, i as int, xx, yy));
                            assert(glyph_paints(c, qx as int, qy as int, xx, yy));
                        }
                    }
                }
                self.cursor_x = self.cursor_x + 8;
            }
            i = i + 1;
        }
    }
}

} // verus!
