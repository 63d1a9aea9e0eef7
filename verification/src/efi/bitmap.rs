//! The pixel-surface capability: any fixed-stride, fixed-size pixel buffer.
//!
//! A surface exposes its geometry (visible width and height, pixels per
//! scan line, bytes per pixel) and a row-major sequence of 32-bit pixel
//! cells. A coordinate `(x, y)` is valid iff `0 <= x < min(width, stride)`
//! and `0 <= y < height`; out-of-range coordinates are a normal, expected
//! condition and must be rejected without touching memory. Bulk operations
//! validate a bounding box once and then use the unchecked accessor, whose
//! precondition demands an already-validated coordinate.

use vstd::prelude::*;

verus! {

/// A fixed-geometry pixel surface addressed row-major with a stride that
/// may exceed the visible width.
pub trait BitMap: Sized {
    /// Visible width in pixels.
    spec fn spec_width(&self) -> int;

    /// Visible height in pixels.
    spec fn spec_height(&self) -> int;

    /// Pixels per scan line (the stride); may exceed the visible width.
    spec fn spec_pixels_per_line(&self) -> int;

    /// Bytes of memory per pixel cell.
    spec fn spec_byte_by_pixel(&self) -> int;

    /// The pixel cells, row-major, `spec_pixels_per_line()` per row.
    spec fn pixels(&self) -> Seq<u32>;

    /// Geometry well-formedness; established at construction, preserved
    /// by every drawing operation.
    spec fn inv(&self) -> bool;

    /// The invariant bounds the geometry and fixes the cell count to
    /// exactly one cell per grid position.
    proof fn inv_grid_facts(&self)
        requires
            self.inv(),
        ensures
            0 <= self.spec_width(),
            0 <= self.spec_height(),
            0 <= self.spec_pixels_per_line(),
            0 < self.spec_byte_by_pixel(),
            self.pixels().len() == self.spec_pixels_per_line() * self.spec_height(),
    ;

    fn byte_by_pixel(&self) -> (r: i64)
        requires
            self.inv(),
        ensures
            r as int == self.spec_byte_by_pixel(),
    ;

    fn pixels_per_line(&self) -> (r: i64)
        requires
            self.inv(),
        ensures
            r as int == self.spec_pixels_per_line(),
    ;

    fn width(&self) -> (r: i64)
        requires
            self.inv(),
        ensures
            r as int == self.spec_width(),
    ;

    fn height(&self) -> (r: i64)
        requires
            self.inv(),
        ensures
            r as int == self.spec_height(),
    ;

    fn is_in_x_range(&self, px: i64) -> (r: bool)
        requires
            self.inv(),
        ensures
            r == (0 <= px as int && (px as int) < self.spec_width() && (px as int)
                < self.spec_pixels_per_line()),
    ;

    fn is_in_y_range(&self, py: i64) -> (r: bool)
        requires
            self.inv(),
        ensures
            r == (0 <= py as int && (py as int) < self.spec_height()),
    ;

    /// Unchecked single-pixel write: the caller must have validated the
    /// coordinate already. Writes the cell at the unchecked address
    /// formula `y * stride + x` and touches nothing else.
    fn unchecked_set_pixel(&mut self, x: i64, y: i64, color: u32)
        requires
            old(self).inv(),
            0 <= x as int && (x as int) < old(self).spec_width() && (x as int) < old(
                self,
            ).spec_pixels_per_line(),
            0 <= y as int && (y as int) < old(self).spec_height(),
        ensures
            final(self).inv(),
            final(self).spec_width() == old(self).spec_width(),
            final(self).spec_height() == old(self).spec_height(),
            final(self).spec_pixels_per_line() == old(self).spec_pixels_per_line(),
            final(self).spec_byte_by_pixel() == old(self).spec_byte_by_pixel(),
            final(self).pixels() == old(self).pixels().update(
                y as int * old(self).spec_pixels_per_line() + x as int,
                color,
            ),
    ;

    /// Checked single-pixel read: the stored value for a valid coordinate,
    /// absence for any other.
    fn pixel_at(&self, x: i64, y: i64) -> (r: Option<u32>)
        requires
            self.inv(),
        ensures
            r == if 0 <= x as int && (x as int) < self.spec_width() && (x as int)
                < self.spec_pixels_per_line() && 0 <= y as int && (y as int) < self.spec_height() {
                Some(self.pixels()[y as int * self.spec_pixels_per_line() + x as int])
            } else {
                None::<u32>
            },
    ;
}

/// Whether `px` is a valid x coordinate: `0 <= px < min(width, stride)`.
pub open spec fn in_x_range<T: BitMap>(s: &T, px: int) -> bool {
    0 <= px && px < s.spec_width() && px < s.spec_pixels_per_line()
}

/// Whether `py` is a valid y coordinate: `0 <= py < height`.
pub open spec fn in_y_range<T: BitMap>(s: &T, py: int) -> bool {
    0 <= py < s.spec_height()
}

/// Whether `(x, y)` may be drawn to through the checked accessors.
pub open spec fn valid_point<T: BitMap>(s: &T, x: int, y: int) -> bool {
    in_x_range(s, x) && in_y_range(s, y)
}

/// A cell that exists in the surface memory, padding columns included.
pub open spec fn in_grid<T: BitMap>(s: &T, x: int, y: int) -> bool {
    0 <= x < s.spec_pixels_per_line() && 0 <= y < s.spec_height()
}

/// Position of cell `(x, y)` in the row-major cell sequence.
pub open spec fn pixel_index<T: BitMap>(s: &T, x: int, y: int) -> int {
    y * s.spec_pixels_per_line() + x
}

/// The pixel value stored at cell `(x, y)`.
pub open spec fn pixel_at_spec<T: BitMap>(s: &T, x: int, y: int) -> u32 {
    s.pixels()[pixel_index(s, x, y)]
}

/// The two surfaces have the same geometry (only cell contents may differ).
pub open spec fn same_geometry<T: BitMap>(a: &T, b: &T) -> bool {
    &&& a.spec_width() == b.spec_width()
    &&& a.spec_height() == b.spec_height()
    &&& a.spec_pixels_per_line() == b.spec_pixels_per_line()
    &&& a.spec_byte_by_pixel() == b.spec_byte_by_pixel()
    &&& a.pixels().len() == b.pixels().len()
}

/// Two distinct grid cells occupy distinct positions in the row-major
/// cell sequence.
pub proof fn lemma_pixel_index_injective<T: BitMap>(s: &T, x1: int, y1: int, x2: int, y2: int)
    requires
        0 <= x1 < s.spec_pixels_per_line(),
        0 <= x2 < s.spec_pixels_per_line(),
        0 <= y1,
        0 <= y2,
        !(x1 == x2 && y1 == y2),
    ensures
        pixel_index(s, x1, y1) != pixel_index(s, x2, y2),
{
    let ppl = s.spec_pixels_per_line();
    assert(y1 * ppl + x1 != y2 * ppl + x2) by (nonlinear_arith)
        requires
            0 <= x1 < ppl,
            0 <= x2 < ppl,
            0 <= y1,
            0 <= y2,
            !(x1 == x2 && y1 == y2),
    ;
}

/// Every grid cell's row-major position lies inside the cell sequence.
pub proof fn lemma_pixel_index_in_bounds<T: BitMap>(s: &T, x: int, y: int)
    requires
        s.inv(),
        in_grid(s, x, y),
    ensures
        0 <= pixel_index(s, x, y) < s.pixels().len(),
{
    s.inv_grid_facts();
    let ppl = s.spec_pixels_per_line();
    let h = s.spec_height();
    assert(0 <= y * ppl + x < h * ppl) by (nonlinear_arith)
        requires
            0 <= x < ppl,
            0 <= y < h,
    ;
}

/// Two surfaces of the same shape whose grid cells all agree hold equal
/// cell sequences.
pub proof fn lemma_pointwise_equal_pixels<T: BitMap>(a: &T, b: &T)
    requires
        a.inv(),
        b.inv(),
        a.spec_pixels_per_line() == b.spec_pixels_per_line(),
        a.spec_height() == b.spec_height(),
        forall|xx: int, yy: int|
            in_grid(a, xx, yy) ==> pixel_at_spec(a, xx, yy) == pixel_at_spec(b, xx, yy),
    ensures
        a.pixels() == b.pixels(),
{
    a.inv_grid_facts();
    b.inv_grid_facts();
    let ppl = a.spec_pixels_per_line();
    let h = a.spec_height();
    assert forall|i: int| 0 <= i < a.pixels().len() implies a.pixels()[i] == b.pixels()[i] by {
        let xx = i % ppl;
        let yy = i / ppl;
        assert(0 < ppl && 0 <= xx < ppl && 0 <= yy < h && i == yy * ppl + xx) by (nonlinear_arith)
            requires
                0 <= i < ppl * h,
                0 <= ppl,
                0 <= h,
                xx == i % ppl,
                yy == i / ppl,
        ;
        assert(in_grid(a, xx, yy));
        assert(pixel_at_spec(a, xx, yy) == pixel_at_spec(b, xx, yy));
    }
    assert(a.pixels() =~= b.pixels());
}

/// What one unchecked write does to the whole grid: the written cell now
/// holds `color`, and every other cell is unchanged.
pub proof fn lemma_set_pixel_pointwise<T: BitMap>(pre: &T, post: &T, x: int, y: int, color: u32)
    requires
        pre.inv(),
        post.inv(),
        valid_point(pre, x, y),
        post.spec_pixels_per_line() == pre.spec_pixels_per_line(),
        post.spec_height() == pre.spec_height(),
        post.pixels() == pre.pixels().update(pixel_index(pre, x, y), color),
    ensures
        post.pixels().len() == pre.pixels().len(),
        forall|xx: int, yy: int|
            in_grid(pre, xx, yy) ==> pixel_at_spec(post, xx, yy) == if xx == x && yy == y {
                color
            } else {
                pixel_at_spec(pre, xx, yy)
            },
{
    lemma_pixel_index_in_bounds(pre, x, y);
    assert forall|xx: int, yy: int| in_grid(pre, xx, yy) implies pixel_at_spec(post, xx, yy) == if
        xx == x && yy == y {
        color
    } else {
        pixel_at_spec(pre, xx, yy)
    } by {
        lemma_pixel_index_in_bounds(pre, xx, yy);
        if !(xx == x && yy == y) {
            lemma_pixel_index_injective(pre, xx, yy, x, y);
        }
    }
}

} // verus!
