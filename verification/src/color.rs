//! The packed-pixel format: one 32-bit word per pixel, blue in the low
//! byte, then green, then red, with the alpha byte forced to 255. This is
//! the little-endian layout of a BGRA quadruple, the raster format the
//! image writer expects.

use vstd::prelude::*;

verus! {

/// The word that holds the 8-bit channels `r`, `g`, `b` with full alpha.
pub open spec fn bgra8_word(r: u8, g: u8, b: u8) -> u32 {
    (b as u32) | ((g as u32) << 8) | ((r as u32) << 16) | (0xffu32 << 24)
}

/// Pack three tone-mapped 8-bit channels into one pixel word.
pub fn pack_bgra8(r: u8, g: u8, b: u8) -> (w: u32)
    ensures
        w == bgra8_word(r, g, b),
{
    (b as u32) | ((g as u32) << 8) | ((r as u32) << 16) | (0xffu32 << 24)
}

/// Packing loses nothing: each channel sits alone in its byte of the word,
/// and the alpha byte is 255.
pub proof fn lemma_bgra8_word_bytes(r: u8, g: u8, b: u8)
    ensures
        bgra8_word(r, g, b) & 0xff == b,
        (bgra8_word(r, g, b) >> 8) & 0xff == g,
        (bgra8_word(r, g, b) >> 16) & 0xff == r,
        (bgra8_word(r, g, b) >> 24) & 0xff == 0xff,
{
    assert(((b as u32) | ((g as u32) << 8) | ((r as u32) << 16) | (0xffu32 << 24)) & 0xff
        == b) by (bit_vector);
    assert((((b as u32) | ((g as u32) << 8) | ((r as u32) << 16) | (0xffu32 << 24)) >> 8) & 0xff
        == g) by (bit_vector);
    assert((((b as u32) | ((g as u32) << 8) | ((r as u32) << 16) | (0xffu32 << 24)) >> 16) & 0xff
        == r) by (bit_vector);
    assert((((b as u32) | ((g as u32) << 8) | ((r as u32) << 16) | (0xffu32 << 24)) >> 24) & 0xff
        == 0xff) by (bit_vector);
}

} // verus!
