//! The basic value types of the screen model: colors, cells, cursor.

use vstd::prelude::*;

verus! {

/// An RGB color, one byte per channel. Plain value, no identity.
#[derive(Clone, Copy, Debug, PartialEq, Eq)]
pub struct Color {
    pub r: u8,
    pub g: u8,
    pub b: u8,
}

/// One display column: a character plus its foreground and background color.
#[derive(Clone, Copy, Debug, PartialEq, Eq)]
pub struct Cell {
    pub c: char,
    pub fg: Color,
    pub bg: Color,
}

/// The logical cursor position, zero-indexed, column `x` and row `y`.
#[derive(Clone, Copy, Debug, PartialEq, Eq)]
pub struct Cursor {
    pub x: usize,
    pub y: usize,
}

/// The default foreground color: white.
pub open spec fn default_fg() -> Color {
    Color { r: 255, g: 255, b: 255 }
}

/// The default background color: black.
pub open spec fn default_bg() -> Color {
    Color { r: 0, g: 0, b: 0 }
}

/// The default cell: a space, white on black.
pub open spec fn default_cell() -> Cell {
    Cell { c: ' ', fg: default_fg(), bg: default_bg() }
}

impl Default for Cell {
    /// A blank cell: space, white foreground, black background.
    fn default() -> (r: Self)
        ensures
            r == default_cell(),
    {
        Cell { c: ' ', fg: Color { r: 255, g: 255, b: 255 }, bg: Color { r: 0, g: 0, b: 0 } }
    }
}

} // verus!
