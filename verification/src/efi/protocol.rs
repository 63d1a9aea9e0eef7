//! Graphics-output capability: the mode and pixel-info records firmware
//! reports for its negotiated display mode.
//!
//! These mirror the firmware's binary layout contract field for field;
//! the surrounding program reads the firmware-owned records and hands
//! copies of these plain values to the library.

use vstd::prelude::*;
use crate::efi::EfiGuid;

verus! {

/// Identifier under which firmware hands out the graphics-output
/// capability.
pub fn graphics_output_protocol_guid() -> (r: EfiGuid)
    ensures
        r.data0 == 0x9042a9de_u32,
        r.data1 == 0x23dc_u16,
        r.data2 == 0x4a38_u16,
        r.data3@ == seq![0x96u8, 0xfbu8, 0x7au8, 0xdeu8, 0xd0u8, 0x80u8, 0x51u8, 0x6au8],
{
    let data3: [u8; 8] = [0x96, 0xfb, 0x7a, 0xde, 0xd0, 0x80, 0x51, 0x6a];
    assert(data3@ =~= seq![0x96u8, 0xfbu8, 0x7au8, 0xdeu8, 0xd0u8, 0x80u8, 0x51u8, 0x6au8]);
    EfiGuid { data0: 0x9042a9de, data1: 0x23dc, data2: 0x4a38, data3 }
}

/// Resolution and scan-line stride of the negotiated display mode.
#[derive(Debug)]
pub struct EfiGraphicsOutputProtocolPixelInfo {
    pub version: u32,
    pub horizontal_resolution: u32,
    pub vertical_resolution: u32,
    pub _padding0: [u32; 5],
    pub pixels_per_scan_line: u32,
}

impl EfiGraphicsOutputProtocolPixelInfo {
    pub fn new(version: u32, horizontal_resolution: u32, vertical_resolution: u32,
        pixels_per_scan_line: u32) -> (r: EfiGraphicsOutputProtocolPixelInfo)
        ensures
            r.horizontal_resolution == horizontal_resolution,
            r.vertical_resolution == vertical_resolution,
            r.pixels_per_scan_line == pixels_per_scan_line,
    {
        EfiGraphicsOutputProtocolPixelInfo {
            version,
            horizontal_resolution,
            vertical_resolution,
            _padding0: [0, 0, 0, 0, 0],
            pixels_per_scan_line,
        }
    }
}

/// The negotiated mode: mode counts, the pixel-info record, and the
/// frame buffer's base address and byte size.
#[derive(Debug)]
pub struct EfiGraphicsOutputProtocolMode<'a> {
    pub max_mode: u32,
    pub mode: u32,
    pub info: &'a EfiGraphicsOutputProtocolPixelInfo,
    pub size_of_info: u64,
    pub frame_buffer_base: usize,
    pub frame_buffer_size: usize,
}

impl<'a> EfiGraphicsOutputProtocolMode<'a> {
    pub fn new(max_mode: u32, mode: u32, info: &'a EfiGraphicsOutputProtocolPixelInfo,
        size_of_info: u64, frame_buffer_base: usize, frame_buffer_size: usize) -> (r:
        EfiGraphicsOutputProtocolMode<'a>)
        ensures
            r.max_mode == max_mode,
            r.mode == mode,
            r.info == info,
            r.size_of_info == size_of_info,
            r.frame_buffer_base == frame_buffer_base,
            r.frame_buffer_size == frame_buffer_size,
    {
        EfiGraphicsOutputProtocolMode { max_mode, mode, info, size_of_info, frame_buffer_base,
            frame_buffer_size }
    }
}

/// The graphics-output capability record, holding the negotiated mode.
#[derive(Debug)]
pub struct EfiGraphicsOutputProtocol<'a> {
    pub reserved: [u64; 3],
    pub mode: &'a EfiGraphicsOutputProtocolMode<'a>,
}

impl<'a> EfiGraphicsOutputProtocol<'a> {
    pub fn new(mode: &'a EfiGraphicsOutputProtocolMode<'a>) -> (r: EfiGraphicsOutputProtocol<'a>)
        ensures
            r.mode == mode,
    {
        EfiGraphicsOutputProtocol { reserved: [0, 0, 0], mode }
    }
}

} // verus!
