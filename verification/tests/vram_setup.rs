//! Frame-buffer discovery, the text cursor, and the diagnostic pattern.

use wasabi_demo::Error;
use wasabi_demo::efi::bitmap::BitMap;
use wasabi_demo::efi::protocol::{
    EfiGraphicsOutputProtocol, EfiGraphicsOutputProtocolMode, EfiGraphicsOutputProtocolPixelInfo,
    graphics_output_protocol_guid,
};
use wasabi_demo::efi::vram::{VramBufferInfo, VramTextWriter, draw_test_pattern, init_vram};

#[test]
fn init_vram_reads_the_negotiated_mode_geometry() {
    let info = EfiGraphicsOutputProtocolPixelInfo::new(0, 4, 3, 5);
    let mode = EfiGraphicsOutputProtocolMode::new(1, 0, &info, 36, 0, 60);
    let gp = EfiGraphicsOutputProtocol::new(&mode);
    let vram = init_vram(Some(&gp)).expect("discovery should succeed");
    assert_eq!(vram.width(), 4);
    assert_eq!(vram.height(), 3);
    assert_eq!(vram.pixels_per_line(), 5);
    assert_eq!(vram.byte_by_pixel(), 4);
    assert_eq!(vram.buf().len(), 15);
    assert!(vram.buf().iter().all(|&p| p == 0));
}

#[test]
fn init_vram_without_the_capability_fails() {
    assert_eq!(
        init_vram(None).err(),
        Some(Error::GraphicsProtocolNotFound)
    );
}

#[test]
fn graphics_guid_matches_the_firmware_specification() {
    let guid = graphics_output_protocol_guid();
    assert_eq!(guid.data0, 0x9042a9de);
    assert_eq!(guid.data1, 0x23dc);
    assert_eq!(guid.data2, 0x4a38);
    assert_eq!(guid.data3, [0x96, 0xfb, 0x7a, 0xde, 0xd0, 0x80, 0x51, 0x6a]);
}

#[test]
fn text_writer_advances_and_wraps_the_cursor() {
    let mut vram = VramBufferInfo::new(32, 48, 32);
    let mut writer = VramTextWriter::new();
    assert_eq!((writer.cursor_x, writer.cursor_y), (0, 0));
    writer.write_str(&mut vram, "0\n1");
    assert_eq!((writer.cursor_x, writer.cursor_y), (8, 16));
    // Row 2 of the '1' glyph (columns 3 and 4) lands 16 rows down.
    assert_eq!(vram.pixel_at(3, 18), Some(0xffffff));
    assert_eq!(vram.pixel_at(4, 18), Some(0xffffff));
    // The first line holds the '0' glyph, drawn in white.
    assert_eq!(vram.pixel_at(2, 2), Some(0xffffff));
    // Nothing below the two text rows.
    for y in 32..48 {
        for x in 0..32 {
            assert_eq!(vram.pixel_at(x, y), Some(0));
        }
    }
}

#[test]
fn test_pattern_paints_the_right_edge_band() {
    let mut vram = VramBufferInfo::new(200, 300, 200);
    draw_test_pattern(&mut vram);
    let left = 200 - 129;
    // Rows between the line star and the text hold the third and
    // fourth square pairs exactly.
    assert_eq!(vram.pixel_at(left + 1, 130), Some(0x00ff00));
    assert_eq!(vram.pixel_at(left + 64, 130), Some(!0x00ff00u32));
    assert_eq!(vram.pixel_at(left + 1, 200), Some(0x0000ff));
    assert_eq!(vram.pixel_at(left + 64, 200), Some(!0x0000ffu32));
    // Left of the band and below the text nothing is touched.
    for y in 0..300 {
        assert_eq!(vram.pixel_at(left - 1, y), Some(0), "at y = {y}");
    }
    for y in 288..300 {
        for x in 0..200 {
            assert_eq!(vram.pixel_at(x, y), Some(0), "at ({x}, {y})");
        }
    }
    // The first square is black on the zeroed surface, but its
    // inverted partner shows.
    assert_eq!(vram.pixel_at(left + 64, 10), Some(!0u32));
    // A green digit row sits under the squares.
    let mut any_text = false;
    for y in 256..272 {
        for x in left..(left + 80) {
            if vram.pixel_at(x, y) == Some(0x00ff00) {
                any_text = true;
            }
        }
    }
    assert!(any_text, "the digit row should paint at least one pixel");
}
