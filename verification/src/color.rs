//! Colours as the host stores them.

use vstd::prelude::*;

verus! {

/// The channel of `abgr` that starts at bit `shift`.
pub open spec fn channel_of(abgr: u32, shift: u32) -> u8 {
    ((abgr >> shift) & 0xFF) as u8
}

/// Splits a colour that is stored as `0xAABBGGRR` into its channels, in the
/// order red, green, blue, alpha.
pub fn abgr_to_rgba_bytes(abgr: u32) -> (rgba: [u8; 4])
    ensures
        rgba[0] == channel_of(abgr, 0),
        rgba[1] == channel_of(abgr, 8),
        rgba[2] == channel_of(abgr, 16),
        rgba[3] == channel_of(abgr, 24),
        abgr == (rgba[3] as u32) * 0x100_0000 + (rgba[2] as u32) * 0x1_0000 + (rgba[1] as u32)
            * 0x100 + (rgba[0] as u32),
{
    let r: u32 = abgr & 0xFF;
    let g: u32 = (abgr >> 8) & 0xFF;
    let b: u32 = (abgr >> 16) & 0xFF;
    let a: u32 = (abgr >> 24) & 0xFF;
    assert(r < 256 && g < 256 && b < 256 && a < 256 && abgr == a * 0x100_0000 + b * 0x1_0000 + g
        * 0x100 + r && r == (abgr >> 0) & 0xFF) by (bit_vector)
        requires
            r == abgr & 0xFF,
            g == (abgr >> 8) & 0xFF,
            b == (abgr >> 16) & 0xFF,
            a == (abgr >> 24) & 0xFF,
    ;
    [r as u8, g as u8, b as u8, a as u8]
}

} // verus!
