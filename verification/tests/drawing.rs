//! Behaviour of the pixel surface and the drawing primitives on small
//! in-memory surfaces.

use wasabi_demo::Error;
use wasabi_demo::efi::bitmap::BitMap;
use wasabi_demo::efi::vram::{
    Color, VramBufferInfo, calc_slope_point, draw_font_fg, draw_line, draw_point, draw_str_fg,
    fill_rect, unchecked_draw_point,
};

fn surface(width: i64, height: i64, stride: i64) -> VramBufferInfo {
    VramBufferInfo::new(width, height, stride)
}

fn pixel(s: &VramBufferInfo, x: i64, y: i64) -> u32 {
    s.pixel_at(x, y).expect("coordinate should be on the surface")
}

#[test]
fn checked_pixel_write_lands_at_row_major_index() {
    let mut s = surface(4, 3, 5);
    assert_eq!(draw_point(&mut s, 0xabcdef, 2, 1), Ok(()));
    // The write is observable at the unchecked index y * stride + x.
    assert_eq!(s.buf()[1 * 5 + 2], 0xabcdef);
    assert_eq!(s.pixel_at(2, 1), Some(0xabcdef));
    // Every other cell is untouched.
    for i in 0..s.buf().len() {
        if i != 7 {
            assert_eq!(s.buf()[i], 0);
        }
    }
}

#[test]
fn checked_pixel_out_of_range_writes_nothing() {
    let mut s = surface(4, 3, 5);
    // x == width is already out, even though the stride has room.
    assert_eq!(draw_point(&mut s, 0xff, 4, 0), Err(Error::OutOfRange));
    assert_eq!(draw_point(&mut s, 0xff, -1, 0), Err(Error::OutOfRange));
    assert_eq!(draw_point(&mut s, 0xff, 0, 3), Err(Error::OutOfRange));
    assert_eq!(draw_point(&mut s, 0xff, 0, -1), Err(Error::OutOfRange));
    assert!(s.buf().iter().all(|&p| p == 0));
    assert_eq!(s.pixel_at(4, 0), None);
    assert_eq!(s.pixel_at(3, 0), Some(0));
}

#[test]
fn narrow_stride_caps_the_valid_x_range() {
    // width 6 but only 4 pixels per line: x must stay under 4.
    let mut s = surface(6, 2, 4);
    assert_eq!(draw_point(&mut s, 1, 3, 0), Ok(()));
    assert_eq!(draw_point(&mut s, 1, 4, 0), Err(Error::OutOfRange));
}

#[test]
fn unchecked_write_matches_checked_write() {
    let mut a = surface(8, 8, 8);
    let mut b = surface(8, 8, 8);
    unchecked_draw_point(&mut a, 7, 5, 6);
    assert_eq!(draw_point(&mut b, 7, 5, 6), Ok(()));
    assert_eq!(a.buf(), b.buf());
}

#[test]
fn fill_rect_paints_exactly_the_rectangle() {
    let mut s = surface(8, 8, 8);
    assert_eq!(fill_rect(&mut s, 9, 2, 1, 3, 4), Ok(()));
    for y in 0..8 {
        for x in 0..8 {
            let expected = if (2..5).contains(&x) && (1..5).contains(&y) { 9 } else { 0 };
            assert_eq!(pixel(&s, x, y), expected, "at ({x}, {y})");
        }
    }
}

#[test]
fn fill_rect_twice_is_idempotent() {
    let mut s = surface(16, 16, 20);
    assert_eq!(fill_rect(&mut s, 0x123456, 3, 4, 7, 5), Ok(()));
    let once = s.buf().clone();
    assert_eq!(fill_rect(&mut s, 0x123456, 3, 4, 7, 5), Ok(()));
    assert_eq!(s.buf(), &once);
}

#[test]
fn fill_rect_one_pixel_outside_writes_nothing() {
    let mut s = surface(10, 10, 10);
    // Bottom-right corner (10, 10) is one pixel outside the surface.
    assert_eq!(fill_rect(&mut s, 0xff, 5, 5, 6, 6), Err(Error::OutOfRange));
    assert!(s.buf().iter().all(|&p| p == 0));
}

#[test]
fn fill_rect_zero_width_checks_the_shifted_corner() {
    let mut s = surface(10, 10, 10);
    // Width 0 addresses corner x - 1 == -1, which is rejected.
    assert_eq!(fill_rect(&mut s, 0xff, 0, 0, 0, 5), Err(Error::OutOfRange));
    // With x > 0 the shifted corner is valid and the fill is empty.
    assert_eq!(fill_rect(&mut s, 0xff, 3, 3, 0, 5), Ok(()));
    assert!(s.buf().iter().all(|&p| p == 0));
}

#[test]
fn draw_line_across_a_row_sets_all_pixels() {
    let mut s = surface(8, 1, 8);
    assert_eq!(draw_line(&mut s, 5, 0, 0, 7, 0), Ok(()));
    for x in 0..8 {
        assert_eq!(pixel(&s, x, 0), 5, "at x = {x}");
    }
}

#[test]
fn degenerate_line_sets_exactly_one_pixel() {
    let mut s = surface(8, 8, 8);
    assert_eq!(draw_line(&mut s, 5, 0, 0, 0, 0), Ok(()));
    assert_eq!(pixel(&s, 0, 0), 5);
    for y in 0..8 {
        for x in 0..8 {
            if (x, y) != (0, 0) {
                assert_eq!(pixel(&s, x, y), 0, "at ({x}, {y})");
            }
        }
    }
}

#[test]
fn draw_line_rejects_an_out_of_range_endpoint() {
    let mut s = surface(8, 8, 8);
    assert_eq!(draw_line(&mut s, 5, 0, 0, 8, 0), Err(Error::OutOfRange));
    assert_eq!(draw_line(&mut s, 5, -1, 0, 7, 0), Err(Error::OutOfRange));
    assert!(s.buf().iter().all(|&p| p == 0));
}

#[test]
fn draw_line_is_symmetric_for_odd_dominant_difference() {
    let mut fwd = surface(8, 8, 8);
    let mut bwd = surface(8, 8, 8);
    assert_eq!(draw_line(&mut fwd, 1, 0, 0, 7, 3), Ok(()));
    assert_eq!(draw_line(&mut bwd, 1, 7, 3, 0, 0), Ok(()));
    assert_eq!(fwd.buf(), bwd.buf());
}

#[test]
fn draw_line_is_symmetric_for_a_steep_line() {
    let mut fwd = surface(8, 8, 8);
    let mut bwd = surface(8, 8, 8);
    assert_eq!(draw_line(&mut fwd, 1, 1, 0, 3, 7), Ok(()));
    assert_eq!(draw_line(&mut bwd, 1, 3, 7, 1, 0), Ok(()));
    assert_eq!(fwd.buf(), bwd.buf());
}

#[test]
fn line_rasteriser_plots_one_pixel_per_dominant_step() {
    let mut s = surface(8, 8, 8);
    assert_eq!(draw_line(&mut s, 1, 0, 0, 7, 3), Ok(()));
    for x in 0..8 {
        let lit: Vec<i64> = (0..8).filter(|&y| pixel(&s, x, y) == 1).collect();
        assert_eq!(lit.len(), 1, "column {x} should hold exactly one lit pixel");
    }
}

#[test]
fn calc_slope_point_follows_the_midpoint_rule() {
    // (2*5*3 + 10) / 10 / 2 == 2
    assert_eq!(calc_slope_point(10, 5, 3), Some(2));
    // (2*3*4 + 7) / 7 / 2 == 31 / 7 / 2 == 4 / 2 == 2
    assert_eq!(calc_slope_point(7, 3, 4), Some(2));
    assert_eq!(calc_slope_point(7, 0, 5), Some(0));
}

#[test]
fn calc_slope_point_degenerate_and_out_of_domain() {
    // A degenerate line short-circuits to 0 instead of dividing by zero.
    assert_eq!(calc_slope_point(0, 0, 0), Some(0));
    // Too steep: the caller must swap the axes.
    assert_eq!(calc_slope_point(3, 5, 1), None);
    // Step outside [0, dw].
    assert_eq!(calc_slope_point(7, 3, 8), None);
    assert_eq!(calc_slope_point(7, 3, -1), None);
}

#[test]
fn named_colors_pack_into_the_low_bits() {
    assert_eq!(Color::Black.rgb(), 0x000000);
    assert_eq!(Color::Red.rgb(), 0xff0000);
    assert_eq!(Color::Green.rgb(), 0x00ff00);
    assert_eq!(Color::Blue.rgb(), 0x0000ff);
    assert_eq!(Color::Yellow.rgb(), 0xffff00);
    assert_eq!(Color::Cyan.rgb(), 0x00ffff);
    assert_eq!(Color::Magenta.rgb(), 0xff00ff);
    assert_eq!(Color::White.rgb(), 0xffffff);
}

#[test]
fn glyph_cells_paint_and_miss_as_the_bitmap_says() {
    let mut s = surface(8, 16, 8);
    draw_font_fg(&mut s, 0, 0, 0xff0000, '1');
    // Row 2 of the '1' glyph is 0x18: columns 3 and 4 are set.
    assert_eq!(pixel(&s, 3, 2), 0xff0000);
    assert_eq!(pixel(&s, 4, 2), 0xff0000);
    assert_eq!(pixel(&s, 0, 2), 0);
    assert_eq!(pixel(&s, 7, 2), 0);
    // Row 0 is blank.
    for x in 0..8 {
        assert_eq!(pixel(&s, x, 0), 0);
    }
}

#[test]
fn unknown_character_draws_nothing() {
    let mut s = surface(8, 16, 8);
    draw_font_fg(&mut s, 0, 0, 0xff0000, 'z');
    assert!(s.buf().iter().all(|&p| p == 0));
}

#[test]
fn off_surface_glyph_cells_are_silently_skipped() {
    let mut s = surface(8, 16, 8);
    // Half the glyph box hangs off the right edge; the call still draws
    // the cells that fit.
    draw_font_fg(&mut s, 4, 0, 0xff0000, '1');
    assert_eq!(pixel(&s, 7, 2), 0xff0000);
}

#[test]
fn draw_str_advances_eight_pixels_per_character() {
    let mut s = surface(16, 16, 16);
    draw_str_fg(&mut s, 0, 0, 0x00ff00, "11");
    // The same glyph cell appears in both character cells.
    assert_eq!(pixel(&s, 3, 2), 0x00ff00);
    assert_eq!(pixel(&s, 8 + 3, 2), 0x00ff00);
}

#[test]
fn a_rounding_tie_breaks_line_symmetry() {
    // On the line from (0, 0) to (2, 1) the middle step falls exactly
    // halfway between two rows, so the two directions round apart:
    // forward lights (1, 1), backward lights (1, 0).
    let mut fwd = surface(4, 4, 4);
    let mut bwd = surface(4, 4, 4);
    assert_eq!(draw_line(&mut fwd, 1, 0, 0, 2, 1), Ok(()));
    assert_eq!(draw_line(&mut bwd, 1, 2, 1, 0, 0), Ok(()));
    assert_eq!(fwd.pixel_at(1, 1), Some(1));
    assert_eq!(bwd.pixel_at(1, 1), Some(0));
    assert_eq!(bwd.pixel_at(1, 0), Some(1));
    assert_ne!(fwd.buf(), bwd.buf());
}
