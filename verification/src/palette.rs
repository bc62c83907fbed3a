//! The built-in color palettes.
//!
//! A palette is a triple of colors: the background gradient's start, the
//! background gradient's end, and the foreground used for the badge text.
//! There is a fixed table of seven palettes, selected by a zero-based
//! index; any index at or beyond the table's bounds selects palette 0.

use crate::color::Rgb;
use vstd::prelude::*;

verus! {

/// How many built-in palettes there are.
pub const PALETTE_COUNT: usize = 7;

/// One palette: the background gradient runs from `back_start` to
/// `back_end`, and badge text is drawn in `fore`.
#[derive(Debug, Copy, Clone, PartialEq, Eq, Structural)]
pub struct Palette {
    pub back_start: Rgb,
    pub back_end: Rgb,
    pub fore: Rgb,
}

/// The palette at index `i` of the built-in table; every index outside
/// `0 .. PALETTE_COUNT` yields palette 0. All seven share the end color
/// and the foreground color; they differ in the gradient's start.
pub open spec fn spec_palette(i: int) -> Palette {
    Palette {
        back_start: if i == 1 {
            Rgb { r: 0xc3, g: 0x97, b: 0xd8 }
        } else if i == 2 {
            Rgb { r: 0x7a, g: 0xa6, b: 0xda }
        } else if i == 3 {
            Rgb { r: 0xe7, g: 0xc5, b: 0x47 }
        } else if i == 4 {
            Rgb { r: 0xb9, g: 0xca, b: 0x4a }
        } else if i == 5 {
            Rgb { r: 0xd5, g: 0x4e, b: 0x53 }
        } else if i == 6 {
            Rgb { r: 0x8a, g: 0xbe, b: 0x87 }
        } else {
            Rgb { r: 0x70, g: 0xc0, b: 0xb1 }
        },
        back_end: Rgb { r: 0xc5, g: 0xc8, b: 0xc6 },
        fore: Rgb { r: 0x3c, g: 0x3e, b: 0x3f },
    }
}

/// The palette at index `i`, exactly as [`spec_palette`] gives it.
pub fn palette_entry(i: usize) -> (p: Palette)
    ensures
        p == spec_palette(i as int),
{
    let back_start = if i == 1 {
        Rgb { r: 0xc3, g: 0x97, b: 0xd8 }
    } else if i == 2 {
        Rgb { r: 0x7a, g: 0xa6, b: 0xda }
    } else if i == 3 {
        Rgb { r: 0xe7, g: 0xc5, b: 0x47 }
    } else if i == 4 {
        Rgb { r: 0xb9, g: 0xca, b: 0x4a }
    } else if i == 5 {
        Rgb { r: 0xd5, g: 0x4e, b: 0x53 }
    } else if i == 6 {
        Rgb { r: 0x8a, g: 0xbe, b: 0x87 }
    } else {
        Rgb { r: 0x70, g: 0xc0, b: 0xb1 }
    };
    Palette {
        back_start,
        back_end: Rgb { r: 0xc5, g: 0xc8, b: 0xc6 },
        fore: Rgb { r: 0x3c, g: 0x3e, b: 0x3f },
    }
}

} // verus!
