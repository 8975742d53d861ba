//! The glyph-metrics table for the fixed-cell bitmap font.
//!
//! The table holds four 16-bit values per printable character starting
//! at the space character: atlas x, atlas y, advance width and base
//! height, for a fixed base glyph cell size.

use vstd::prelude::*;

verus! {

/// Number of 16-bit entries in a metrics table.
pub const FONT_ENTRIES: usize = 1024;

/// The base glyph cell size the metrics are expressed in.
pub const BASE_GLYPH_SIZE: i64 = 8;

/// A parsed glyph-metrics table.
#[derive(Debug, Clone)]
pub struct Font {
    data: Vec<u16>,
}

/// The 16-bit little-endian value at entry `i` of a byte buffer that
/// is implicitly zero-padded to the table size.
pub open spec fn spec_font_entry(bytes: Seq<u8>, i: int) -> u16 {
    let lo: u8 = if 2 * i < bytes.len() {
        bytes[2 * i]
    } else {
        0u8
    };
    let hi: u8 = if 2 * i + 1 < bytes.len() {
        bytes[2 * i + 1]
    } else {
        0u8
    };
    (lo + hi * 0x100) as u16
}

impl Font {
    /// The table is always fully populated.
    pub closed spec fn wf(self) -> bool {
        self.data@.len() == FONT_ENTRIES
    }

    /// Entry `i` of the table.
    pub closed spec fn entry(self, i: int) -> u16 {
        self.data@[i]
    }

    /// Reads a metrics table from its on-disk byte form: consecutive
    /// little-endian 16-bit values, zero-padded to the table size.
    pub fn parse_from_bytes(data: &[u8]) -> (r: Font)
        ensures
            r.wf(),
            forall|i: int| 0 <= i < FONT_ENTRIES ==> r.entry(i) == spec_font_entry(data@, i),
    {
        let mut table: Vec<u16> = Vec::new();
        let mut i: usize = 0;
        while i < FONT_ENTRIES
            invariant
                i <= FONT_ENTRIES,
                table@.len() == i,
                forall|j: int| 0 <= j < i ==> table@[j] == spec_font_entry(data@, j),
            decreases FONT_ENTRIES - i,
        {
            let lo: u16 = if 2 * i < data.len() {
                data[2 * i] as u16
            } else {
                0
            };
            let hi: u16 = if 2 * i < data.len() && 2 * i + 1 < data.len() {
                data[2 * i + 1] as u16
            } else {
                0
            };
            table.push(lo + hi * 0x100);
            i = i + 1;
        }
        Font { data: table }
    }

    /// The metrics of one character: `(atlas_x, atlas_y, advance_width,
    /// base_height)`. Control characters below the space character have
    /// no metrics and are excluded.
    pub fn get_data(&self, char: u8) -> (r: (u16, u16, u16, u16))
        requires
            self.wf(),
            char >= 32,
        ensures
            r.0 == self.entry((char - 32) * 4),
            r.1 == self.entry((char - 32) * 4 + 1),
            r.2 == self.entry((char - 32) * 4 + 2),
            r.3 == self.entry((char - 32) * 4 + 3),
    {
        let i: usize = (char as usize - 32) * 4;
        (self.data[i], self.data[i + 1], self.data[i + 2], self.data[i + 3])
    }
}

} // verus!
