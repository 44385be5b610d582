//! Conversion from framebuffer pixels to host pixel values.

use vstd::prelude::*;

verus! {

/// Maps one framebuffer cell to a 0RGB colour word: an on pixel renders as
/// white, anything else as black.
pub fn to_0rgb(pixel: &u8) -> (color: u32)
    ensures
        color == (if *pixel == 1 { 0x00FFFFFFu32 } else { 0u32 }),
{
    if *pixel == 1 {
        0x00FFFFFF
    } else {
        0
    }
}

} // verus!
