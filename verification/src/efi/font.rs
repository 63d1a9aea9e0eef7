//! The fixed font glyph table: an 8-column by 16-row monochrome bitmap
//! for each supported single-byte character code.
//!
//! Each glyph is sixteen row bytes; in a row byte, bit `7 - dx` is the
//! cell in column `dx`, so the most significant bit is the leftmost
//! column.

use vstd::prelude::*;

verus! {

/// Whether the glyph cell in column `dx` of row `dy` is set.
pub open spec fn glyph_cell(rows: Seq<u8>, dx: int, dy: int) -> bool {
    (rows[dy] >> ((7 - dx) as u8)) & 1u8 == 1u8
}

/// The glyph table: the row bytes for each supported character.
pub open spec fn spec_font(c: char) -> Option<Seq<u8>> {
    if c == '0' {
        Some(seq![0x00u8, 0x00u8, 0x3cu8, 0x66u8, 0x66u8, 0x6eu8, 0x6eu8, 0x76u8, 0x76u8, 0x66u8,
            0x66u8, 0x3cu8, 0x00u8, 0x00u8, 0x00u8, 0x00u8])
    } else if c == '1' {
        Some(seq![0x00u8, 0x00u8, 0x18u8, 0x38u8, 0x78u8, 0x18u8, 0x18u8, 0x18u8, 0x18u8, 0x18u8,
            0x18u8, 0x7eu8, 0x00u8, 0x00u8, 0x00u8, 0x00u8])
    } else if c == '2' {
        Some(seq![0x00u8, 0x00u8, 0x3cu8, 0x66u8, 0x06u8, 0x06u8, 0x0cu8, 0x18u8, 0x30u8, 0x60u8,
            0x66u8, 0x7eu8, 0x00u8, 0x00u8, 0x00u8, 0x00u8])
    } else if c == '3' {
        Some(seq![0x00u8, 0x00u8, 0x3cu8, 0x66u8, 0x06u8, 0x06u8, 0x1cu8, 0x06u8, 0x06u8, 0x06u8,
            0x66u8, 0x3cu8, 0x00u8, 0x00u8, 0x00u8, 0x00u8])
    } else if c == '4' {
        Some(seq![0x00u8, 0x00u8, 0x0cu8, 0x1cu8, 0x3cu8, 0x6cu8, 0xccu8, 0xfeu8, 0x0cu8, 0x0cu8,
            0x0cu8, 0x1eu8, 0x00u8, 0x00u8, 0x00u8, 0x00u8])
    } else if c == '5' {
        Some(seq![0x00u8, 0x00u8, 0x7eu8, 0x60u8, 0x60u8, 0x60u8, 0x7cu8, 0x06u8, 0x06u8, 0x06u8,
            0x66u8, 0x3cu8, 0x00u8, 0x00u8, 0x00u8, 0x00u8])
    } else if c == '6' {
        Some(seq![0x00u8, 0x00u8, 0x1cu8, 0x30u8, 0x60u8, 0x60u8, 0x7cu8, 0x66u8, 0x66u8, 0x66u8,
            0x66u8, 0x3cu8, 0x00u8, 0x00u8, 0x00u8, 0x00u8])
    } else if c == '7' {
        Some(seq![0x00u8, 0x00u8, 0x7eu8, 0x66u8, 0x06u8, 0x06u8, 0x0cu8, 0x18u8, 0x18u8, 0x18u8,
            0x18u8, 0x18u8, 0x00u8, 0x00u8, 0x00u8, 0x00u8])
    } else if c == '8' {
        Some(seq![0x00u8, 0x00u8, 0x3cu8, 0x66u8, 0x66u8, 0x66u8, 0x3cu8, 0x66u8, 0x66u8, 0x66u8,
            0x66u8, 0x3cu8, 0x00u8, 0x00u8, 0x00u8, 0x00u8])
    } else if c == '9' {
        Some(seq![0x00u8, 0x00u8, 0x3cu8, 0x66u8, 0x66u8, 0x66u8, 0x66u8, 0x3eu8, 0x06u8, 0x06u8,
            0x0cu8, 0x38u8, 0x00u8, 0x00u8, 0x00u8, 0x00u8])
    } else if c == 'A' {
        Some(seq![0x00u8, 0x00u8, 0x18u8, 0x3cu8, 0x66u8, 0x66u8, 0x66u8, 0x7eu8, 0x66u8, 0x66u8,
            0x66u8, 0x66u8, 0x00u8, 0x00u8, 0x00u8, 0x00u8])
    } else if c == 'B' {
        Some(seq![0x00u8, 0x00u8, 0x7cu8, 0x66u8, 0x66u8, 0x66u8, 0x7cu8, 0x66u8, 0x66u8, 0x66u8,
            0x66u8, 0x7cu8, 0x00u8, 0x00u8, 0x00u8, 0x00u8])
    } else if c == 'C' {
        Some(seq![0x00u8, 0x00u8, 0x3cu8, 0x66u8, 0x60u8, 0x60u8, 0x60u8, 0x60u8, 0x60u8, 0x60u8,
            0x66u8, 0x3cu8, 0x00u8, 0x00u8, 0x00u8, 0x00u8])
    } else if c == 'D' {
        Some(seq![0x00u8, 0x00u8, 0x78u8, 0x6cu8, 0x66u8, 0x66u8, 0x66u8, 0x66u8, 0x66u8, 0x66u8,
            0x6cu8, 0x78u8, 0x00u8, 0x00u8, 0x00u8, 0x00u8])
    } else if c == 'E' {
        Some(seq![0x00u8, 0x00u8, 0x7eu8, 0x60u8, 0x60u8, 0x60u8, 0x7cu8, 0x60u8, 0x60u8, 0x60u8,
            0x60u8, 0x7eu8, 0x00u8, 0x00u8, 0x00u8, 0x00u8])
    } else if c == 'F' {
        Some(seq![0x00u8, 0x00u8, 0x7eu8, 0x60u8, 0x60u8, 0x60u8, 0x7cu8, 0x60u8, 0x60u8, 0x60u8,
            0x60u8, 0x60u8, 0x00u8, 0x00u8, 0x00u8, 0x00u8])
    } else if c == ' ' {
        Some(seq![0x00u8, 0x00u8, 0x00u8, 0x00u8, 0x00u8, 0x00u8, 0x00u8, 0x00u8, 0x00u8, 0x00u8,
            0x00u8, 0x00u8, 0x00u8, 0x00u8, 0x00u8, 0x00u8])
    } else {
        None
    }
}

/// Looks up the 16-row bitmap for a character; characters outside the
/// table have no glyph.
pub fn lookup_font(c: char) -> (r: Option<[u8; 16]>)
    ensures
        r is Some <==> spec_font(c) is Some,
        r is Some ==> r.unwrap()@ == spec_font(c).unwrap(),
{
    let rows: [u8; 16] = match c {
        '0' => [0x00, 0x00, 0x3c, 0x66, 0x66, 0x6e, 0x6e, 0x76, 0x76, 0x66, 0x66, 0x3c, 0x00,
            0x00, 0x00, 0x00],
        '1' => [0x00, 0x00, 0x18, 0x38, 0x78, 0x18, 0x18, 0x18, 0x18, 0x18, 0x18, 0x7e, 0x00,
            0x00, 0x00, 0x00],
        '2' => [0x00, 0x00, 0x3c, 0x66, 0x06, 0x06, 0x0c, 0x18, 0x30, 0x60, 0x66, 0x7e, 0x00,
            0x00, 0x00, 0x00],
        '3' => [0x00, 0x00, 0x3c, 0x66, 0x06, 0x06, 0x1c, 0x06, 0x06, 0x06, 0x66, 0x3c, 0x00,
            0x00, 0x00, 0x00],
        '4' => [0x00, 0x00, 0x0c, 0x1c, 0x3c, 0x6c, 0xcc, 0xfe, 0x0c, 0x0c, 0x0c, 0x1e, 0x00,
            0x00, 0x00, 0x00],
        '5' => [0x00, 0x00, 0x7e, 0x60, 0x60, 0x60, 0x7c, 0x06, 0x06, 0x06, 0x66, 0x3c, 0x00,
            0x00, 0x00, 0x00],
        '6' => [0x00, 0x00, 0x1c, 0x30, 0x60, 0x60, 0x7c, 0x66, 0x66, 0x66, 0x66, 0x3c, 0x00,
            0x00, 0x00, 0x00],
        '7' => [0x00, 0x00, 0x7e, 0x66, 0x06, 0x06, 0x0c, 0x18, 0x18, 0x18, 0x18, 0x18, 0x00,
            0x00, 0x00, 0x00],
        '8' => [0x00, 0x00, 0x3c, 0x66, 0x66, 0x66, 0x3c, 0x66, 0x66, 0x66, 0x66, 0x3c, 0x00,
            0x00, 0x00, 0x00],
        '9' => [0x00, 0x00, 0x3c, 0x66, 0x66, 0x66, 0x66, 0x3e, 0x06, 0x06, 0x0c, 0x38, 0x00,
            0x00, 0x00, 0x00],
        'A' => [0x00, 0x00, 0x18, 0x3c, 0x66, 0x66, 0x66, 0x7e, 0x66, 0x66, 0x66, 0x66, 0x00,
            0x00, 0x00, 0x00],
        'B' => [0x00, 0x00, 0x7c, 0x66, 0x66, 0x66, 0x7c, 0x66, 0x66, 0x66, 0x66, 0x7c, 0x00,
            0x00, 0x00, 0x00],
        'C' => [0x00, 0x00, 0x3c, 0x66, 0x60, 0x60, 0x60, 0x60, 0x60, 0x60, 0x66, 0x3c, 0x00,
            0x00, 0x00, 0x00],
        'D' => [0x00, 0x00, 0x78, 0x6c, 0x66, 0x66, 0x66, 0x66, 0x66, 0x66, 0x6c, 0x78, 0x00,
            0x00, 0x00, 0x00],
        'E' => [0x00, 0x00, 0x7e, 0x60, 0x60, 0x60, 0x7c, 0x60, 0x60, 0x60, 0x60, 0x7e, 0x00,
            0x00, 0x00, 0x00],
        'F' => [0x00, 0x00, 0x7e, 0x60, 0x60, 0x60, 0x7c, 0x60, 0x60, 0x60, 0x60, 0x60, 0x00,
            0x00, 0x00, 0x00],
        ' ' => [0x00, 0x00, 0x00, 0x00, 0x00, 0x00, 0x00, 0x00, 0x00, 0x00, 0x00, 0x00, 0x00,
            0x00, 0x00, 0x00],
        _ => {
            return None;
        },
    };
    proof {
        assert(rows@ =~= spec_font(c).unwrap());
    }
    Some(rows)
}

} // verus!
