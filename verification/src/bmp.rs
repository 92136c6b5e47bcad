//! Bitmap header inspection for the splash image the embedding program
//! draws before loading begins.

use vstd::prelude::*;
use vstd::bytes::{spec_u32_from_le_bytes, u32_from_le_bytes};
use vstd::slice::slice_subrange;

verus! {

/// Offset of the width field of a bitmap info header.
pub const BMP_WIDTH_OFFSET: usize = 18;

/// Offset of the height field of a bitmap info header.
pub const BMP_HEIGHT_OFFSET: usize = 22;

/// The declared width of the bitmap.
pub open spec fn spec_bmp_width(s: Seq<u8>) -> int {
    spec_u32_from_le_bytes(s.subrange(18, 22)) as int
}

/// The magnitude of the declared height: bitmaps store the height signed,
/// negative for top-down rows, and only the magnitude matters for layout.
pub open spec fn spec_bmp_height(s: Seq<u8>) -> int {
    let h = spec_u32_from_le_bytes(s.subrange(22, 26)) as int;
    if h >= 0x8000_0000 {
        0x1_0000_0000 - h
    } else {
        h
    }
}

/// Reads the pixel dimensions out of a bitmap header: width, and the
/// magnitude of the signed height. A header too short to hold both fields
/// yields nothing.
pub fn get_bmp_dimensions(header: &[u8]) -> (r: Option<(usize, usize)>)
    ensures
        header@.len() < 26 ==> r is None,
        header@.len() >= 26 ==> (r matches Some(d) && d.0 == spec_bmp_width(header@) && d.1
            == spec_bmp_height(header@)),
{
    if header.len() < 26 {
        return None;
    }
    let width = u32_from_le_bytes(slice_subrange(header, BMP_WIDTH_OFFSET, BMP_WIDTH_OFFSET + 4));
    let height_raw = u32_from_le_bytes(
        slice_subrange(header, BMP_HEIGHT_OFFSET, BMP_HEIGHT_OFFSET + 4),
    );
    let height: u32 = if height_raw >= 0x8000_0000 {
        (0xFFFF_FFFFu32 - height_raw) + 1
    } else {
        height_raw
    };
    Some((width as usize, height as usize))
}

} // verus!
