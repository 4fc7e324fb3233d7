//! The cells of the display buffer. Each is a 16-bit word behind a volatile
//! wrapper, so that every access reaches the device: the low byte is the
//! glyph, the high byte the attribute, and one store writes both.

use vstd::prelude::*;
use volatile::Volatile;

use crate::drivers::vga::color::ColorCode;

verus! {

/// `volatile::Volatile`, whose contents only its own methods reach.
#[verifier::external_type_specification]
#[verifier::external_body]
#[verifier::reject_recursive_types(T)]
pub struct ExVolatile<T: Copy>(Volatile<T>);

/// The word that a cell holds: what `Volatile::read` returns for it, and
/// what `Volatile::write` stored in it last.
pub uninterp spec fn held(cell: Volatile<u16>) -> u16;

/// `Volatile::read`: a volatile read of the cell, which returns a copy of the
/// word that the cell holds.
#[verifier::external_body]
pub(crate) fn cell_read(cell: &Volatile<u16>) -> (word: u16)
    ensures
        word == held(*cell),
    no_unwind
{
    cell.read()
}

/// `Volatile::write`: a volatile write, after which the cell holds `word`.
/// It never panics.
#[verifier::external_body]
pub(crate) fn cell_write(cell: &mut Volatile<u16>, word: u16)
    ensures
        held(*final(cell)) == word,
    no_unwind
{
    cell.write(word)
}

/// The glyph that stands for an empty cell.
pub const BLANK: u8 = 0x20;

/// What one cell shows: a glyph and the attribute it is drawn with.
#[derive(Clone, Copy, Debug, PartialEq, Eq, Structural)]
pub struct ScreenChar {
    pub ascii_character: u8,
    pub color_code: ColorCode,
}

/// The word that shows `glyph` with the attribute `color`.
pub open spec fn cell_of(glyph: u8, color: u8) -> u16 {
    (color * 256 + glyph) as u16
}

impl ScreenChar {
    /// The word that a cell holds to show this.
    pub open spec fn spec_encode(self) -> u16 {
        cell_of(self.ascii_character, self.color_code.0)
    }

    /// The word that a cell holds to show this.
    #[verifier::when_used_as_spec(spec_encode)]
    pub fn encode(self) -> (word: u16)
        ensures
            word == self.spec_encode(),
    {
        self.color_code.0 as u16 * 256 + self.ascii_character as u16
    }

    /// What a cell shows that holds `word`.
    pub open spec fn spec_decode(word: u16) -> ScreenChar {
        ScreenChar { ascii_character: (word % 256) as u8, color_code: ColorCode((word / 256) as u8) }
    }

    /// What a cell shows that holds `word`.
    #[verifier::when_used_as_spec(spec_decode)]
    pub fn decode(word: u16) -> (shown: ScreenChar)
        ensures
            shown == ScreenChar::spec_decode(word),
    {
        ScreenChar { ascii_character: (word % 256) as u8, color_code: ColorCode((word / 256) as u8) }
    }
}

/// A cell's word and what the cell shows determine each other.
pub proof fn lemma_cell_round_trip(shown: ScreenChar, word: u16)
    ensures
        ScreenChar::decode(shown.encode()) == shown,
        ScreenChar::decode(word).encode() == word,
{
}

} // verus!
