//! Colour value formats shared by the engine and the renderer.

use vstd::prelude::*;

verus! {

/// An opaque 8-bit-per-channel colour.
#[derive(Debug, Clone, Copy, PartialEq, Eq, Structural)]
pub struct RGB {
    pub r: u8,
    pub g: u8,
    pub b: u8,
}

impl RGB {
    pub fn new(r: u8, g: u8, b: u8) -> (c: Self)
        ensures
            c == (RGB { r, g, b }),
    {
        RGB { r, g, b }
    }
}

/// An 8-bit-per-channel colour with an alpha channel.
#[derive(Debug, Clone, Copy, PartialEq, Eq, Structural)]
pub struct RGBA {
    pub r: u8,
    pub g: u8,
    pub b: u8,
    pub a: u8,
}

impl RGBA {
    pub fn new(r: u8, g: u8, b: u8, a: u8) -> (c: Self)
        ensures
            c == (RGBA { r, g, b, a }),
    {
        RGBA { r, g, b, a }
    }

    /// The little-endian packing of the four channels into one word.
    pub open spec fn spec_as_u32(self) -> u32 {
        (self.r + self.g * 0x100 + self.b * 0x1_0000 + self.a * 0x100_0000) as u32
    }

    /// Packs the channels into a little-endian `u32`, red in the low byte.
    pub fn as_u32(&self) -> (w: u32)
        ensures
            w == self.spec_as_u32(),
    {
        self.r as u32 + self.g as u32 * 0x100 + self.b as u32 * 0x1_0000 + self.a as u32
            * 0x100_0000
    }

    /// Drops the alpha channel.
    pub fn to_rgb(&self) -> (c: RGB)
        ensures
            c == (RGB { r: self.r, g: self.g, b: self.b }),
    {
        RGB { r: self.r, g: self.g, b: self.b }
    }
}

} // verus!
