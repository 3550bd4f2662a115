//! The color a map shape paints with.
//!
//! The color model itself belongs to the surrounding rendering framework;
//! this type only carries the value from the shape to the painter. It
//! mirrors the ANSI palette of a terminal: the named colors, a 24-bit RGB
//! triple, an 8-bit indexed color, and the reset sentinel that stands for
//! "leave the terminal's own default in place".

use vstd::prelude::*;

verus! {

/// A terminal color, carried from a shape to the cells it paints.
#[derive(Debug, Clone, Copy, PartialEq, Eq, Structural, Hash)]
pub enum Color {
    /// The no-op sentinel: the terminal's own default.
    Reset,
    Black,
    Red,
    Green,
    Yellow,
    Blue,
    Magenta,
    Cyan,
    Gray,
    DarkGray,
    LightRed,
    LightGreen,
    LightYellow,
    LightBlue,
    LightMagenta,
    LightCyan,
    White,
    /// A 24-bit color: red, green and blue channels.
    Rgb(u8, u8, u8),
    /// A color of the terminal's 256-color table.
    Indexed(u8),
}

impl Default for Color {
    /// The default color is the reset sentinel.
    fn default() -> (r: Self)
        ensures
            r == Color::Reset,
    {
        Color::Reset
    }
}

} // verus!
