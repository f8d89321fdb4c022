//! Cell samples produced by rasterization, before they are flushed.
use vstd::prelude::*;

verus! {

/// crossterm's terminal color, carried through the library as an opaque value.
#[verifier::external_type_specification]
#[verifier::external_body]
pub struct ExColor(crossterm::style::Color);


/// The glyph of a filled cell.
pub const SOLID: char = '\u{2588}';

/// One sample: a cell, its glyph, its color and the z-index of the shape that made it.
#[derive(Debug, Clone, Copy)]
pub struct Pixel {
    pub x: u16,
    pub y: u16,
    pub glyph: char,
    pub color: crossterm::style::Color,
    pub z_index: i32,
}

impl Pixel {
    pub fn new(x: u16, y: u16, glyph: char, color: crossterm::style::Color, z_index: i32) -> (r: Pixel)
        ensures
            r == (Pixel { x, y, glyph, color, z_index }),
    {
        Pixel { x, y, glyph, color, z_index }
    }
}

/// Whether a cell lies inside a terminal of `width` by `height` cells.
pub open spec fn in_extent(x: int, y: int, width: u16, height: u16) -> bool {
    0 <= x < width && 0 <= y < height
}

} // verus!
