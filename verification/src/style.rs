//! The SGR color table: a small closed color enumeration mapped to the
//! numeric codes terminals use for foreground and background styling.

use vstd::prelude::*;

verus! {

/// Marker for foreground color codes.
#[derive(Debug, Clone, Copy)]
pub struct ForegroundCode;

/// Marker for background color codes.
#[derive(Debug, Clone, Copy)]
pub struct BackgroundCode;

/// A color that has an SGR numeric code of kind `T`.
pub trait ColorCode<T> {
    /// The SGR numeric code of this color.
    fn code(&self) -> u8;
}

/// The closed set of base terminal colors, plus the terminal's default and
/// the style reset.
#[derive(Debug, Clone, Copy, PartialEq, Eq, Hash, Structural)]
pub enum Color {
    Black,
    Red,
    Green,
    Yellow,
    Blue,
    Magenta,
    Cyan,
    White,
    Default,
    Reset,
}

/// The SGR foreground code of a color: the 30 block, 39 for the default,
/// and 0 for the reset.
pub open spec fn spec_foreground_code(c: Color) -> u8 {
    match c {
        Color::Black => 30,
        Color::Red => 31,
        Color::Green => 32,
        Color::Yellow => 33,
        Color::Blue => 34,
        Color::Magenta => 35,
        Color::Cyan => 36,
        Color::White => 37,
        Color::Default => 39,
        Color::Reset => 0,
    }
}

/// The SGR background code of a color: the 40 block, 49 for the default,
/// and 0 for the reset.
pub open spec fn spec_background_code(c: Color) -> u8 {
    match c {
        Color::Black => 40,
        Color::Red => 41,
        Color::Green => 42,
        Color::Yellow => 43,
        Color::Blue => 44,
        Color::Magenta => 45,
        Color::Cyan => 46,
        Color::White => 47,
        Color::Default => 49,
        Color::Reset => 0,
    }
}

impl Color {
    /// The SGR foreground code, exactly as [`spec_foreground_code`] states.
    pub fn foreground_code(&self) -> (r: u8)
        ensures
            r == spec_foreground_code(*self),
    {
        match self {
            Color::Black => 30,
            Color::Red => 31,
            Color::Green => 32,
            Color::Yellow => 33,
            Color::Blue => 34,
            Color::Magenta => 35,
            Color::Cyan => 36,
            Color::White => 37,
            Color::Default => 39,
            Color::Reset => 0,
        }
    }

    /// The SGR background code, exactly as [`spec_background_code`] states.
    pub fn background_code(&self) -> (r: u8)
        ensures
            r == spec_background_code(*self),
    {
        match self {
            Color::Black => 40,
            Color::Red => 41,
            Color::Green => 42,
            Color::Yellow => 43,
            Color::Blue => 44,
            Color::Magenta => 45,
            Color::Cyan => 46,
            Color::White => 47,
            Color::Default => 49,
            Color::Reset => 0,
        }
    }
}

impl ColorCode<ForegroundCode> for Color {
    fn code(&self) -> u8 {
        self.foreground_code()
    }
}

impl ColorCode<BackgroundCode> for Color {
    fn code(&self) -> u8 {
        self.background_code()
    }
}

/// An extended (256-palette) color, carried as its palette index.
#[derive(Debug, Clone, Copy, PartialEq, Eq, Hash, Structural)]
pub struct ExtendedColor(pub u8);

} // verus!
