//! The sixteen colors of the text display and the attribute byte that
//! pairs two of them.

use vstd::prelude::*;

verus! {

/// A color of the text display's palette.
#[derive(Clone, Copy, Debug, PartialEq, Eq, Structural)]
pub enum Color {
    Black,
    Blue,
    Green,
    Cyan,
    Red,
    Magenta,
    Brown,
    LightGray,
    DarkGray,
    LightBlue,
    LightGreen,
    LightCyan,
    LightRed,
    Pink,
    Yellow,
    White,
}

impl Color {
    /// The color's number in the palette.
    pub open spec fn spec_code(self) -> u8 {
        match self {
            Color::Black => 0,
            Color::Blue => 1,
            Color::Green => 2,
            Color::Cyan => 3,
            Color::Red => 4,
            Color::Magenta => 5,
            Color::Brown => 6,
            Color::LightGray => 7,
            Color::DarkGray => 8,
            Color::LightBlue => 9,
            Color::LightGreen => 10,
            Color::LightCyan => 11,
            Color::LightRed => 12,
            Color::Pink => 13,
            Color::Yellow => 14,
            Color::White => 15,
        }
    }

    /// The color's number in the palette.
    #[verifier::when_used_as_spec(spec_code)]
    pub fn code(self) -> (code: u8)
        ensures
            code == self.spec_code(),
            code < 16,
    {
        match self {
            Color::Black => 0,
            Color::Blue => 1,
            Color::Green => 2,
            Color::Cyan => 3,
            Color::Red => 4,
            Color::Magenta => 5,
            Color::Brown => 6,
            Color::LightGray => 7,
            Color::DarkGray => 8,
            Color::LightBlue => 9,
            Color::LightGreen => 10,
            Color::LightCyan => 11,
            Color::LightRed => 12,
            Color::Pink => 13,
            Color::Yellow => 14,
            Color::White => 15,
        }
    }
}

/// The attribute byte of a cell: the background color in its high four
/// bits, the foreground color in its low four.
#[derive(Clone, Copy, Debug, PartialEq, Eq, Structural)]
pub struct ColorCode(pub u8);

/// The attribute that a display starts with: light gray on black.
pub const DEFAULT_ATTRIBUTE: u8 = 0x07;

impl ColorCode {
    /// The attribute that shows `foreground` on `background`.
    pub open spec fn spec_new(foreground: Color, background: Color) -> ColorCode {
        ColorCode((background.code() * 16 + foreground.code()) as u8)
    }

    /// The attribute that shows `foreground` on `background`.
    #[verifier::when_used_as_spec(spec_new)]
    pub fn new(foreground: Color, background: Color) -> (color: ColorCode)
        ensures
            color == ColorCode::spec_new(foreground, background),
    {
        ColorCode(background.code() * 16 + foreground.code())
    }

    /// The attribute that a display starts with.
    pub fn initial() -> (color: ColorCode)
        ensures
            color == ColorCode(DEFAULT_ATTRIBUTE),
            color == ColorCode::new(Color::LightGray, Color::Black),
    {
        ColorCode(DEFAULT_ATTRIBUTE)
    }
}

} // verus!
