//! Interface elements drawn over the shapes.
use vstd::prelude::*;

verus! {

/// Something that can be drawn and updated once per frame.
pub trait UIElement {
    fn draw(&self);

    fn update(&mut self);
}

/// Text size and colors.
#[derive(Debug, Clone, Copy)]
pub struct TextStyle {
    pub font_size: u16,
    pub fg_color: crossterm::style::Color,
    pub bg_color: crossterm::style::Color,
}

impl TextStyle {
    pub fn new(font_size: u16, color: crossterm::style::Color, background_color: crossterm::style::Color) -> (r: TextStyle)
        ensures
            r.font_size == font_size,
            r.fg_color == color,
            r.bg_color == background_color,
    {
        TextStyle { font_size, fg_color: color, bg_color: background_color }
    }
}

} // verus!
