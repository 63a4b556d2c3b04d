//! What the renderer decides without the GPU: glyph cache keys, read-back frames, the cursor's
//! blink and the pixel icons.

pub mod blink;
pub mod icons;

use vstd::prelude::*;

verus! {

/// Icon tiles: glyph = ICON_TILE_BASE + icon index, size_q = pixel scale.
pub const ICON_TILE_BASE: u16 = 100;

#[derive(Clone, Copy, Debug, Hash, PartialEq, Eq, Structural)]
pub struct GlyphKey {
    pub font: usize,
    pub glyph: u16,
    /// Pixel size times 4, so fractional sizes still get distinct entries.
    pub size_q: u32,
    pub bold: bool,
    pub italic: bool,
}

/// The glyph atlas has no room left this frame.
#[derive(Clone, Copy, Debug, PartialEq, Eq, Structural)]
pub struct AtlasFull;

/// A frame read back from the GPU: RGBA8, row-major, top-left first.
#[derive(Debug)]
pub struct Capture {
    pub width: u32,
    pub height: u32,
    pub rgba: Vec<u8>,
}

} // verus!
