//! Text as the display takes it: bytes, put together from literal pieces
//! and from numbers written out in decimal or hexadecimal digits.

use vstd::prelude::*;
use vstd::string::StringSliceAdditionalSpecFns;

verus! {

/// One piece of a line of output.
#[derive(Clone, Copy, Debug)]
pub enum Piece<'a> {
    /// Text, shown byte for byte.
    Text(&'a str),
    /// A number, shown in decimal digits.
    Unsigned(u64),
    /// A number, shown in hexadecimal digits behind `0x`.
    Hex(u64),
}

/// The character for the digit `digit`: `0` to `9`, then `a` to `f`.
pub open spec fn digit_char(digit: int) -> u8 {
    if digit < 10 {
        (0x30 + digit) as u8
    } else {
        (0x61 + digit - 10) as u8
    }
}

/// The digits of `value` to the base `base`, most significant first and
/// without leading zeros; zero is the one digit `0`.
pub open spec fn digits_of(value: nat, base: nat) -> Seq<u8>
    decreases value,
{
    if base < 2 || value < base {
        seq![digit_char(value as int)]
    } else {
        proof {
            assert(value / base < value) by (nonlinear_arith)
                requires
                    value >= base,
                    base >= 2,
            ;
        }
        digits_of(value / base, base).push(digit_char((value % base) as int))
    }
}

/// `value` in decimal digits.
pub open spec fn decimal_of(value: u64) -> Seq<u8> {
    digits_of(value as nat, 10)
}

/// `value` in hexadecimal digits behind the prefix `0x`.
pub open spec fn hex_of(value: u64) -> Seq<u8> {
    seq![0x30u8, 0x78u8] + digits_of(value as nat, 16)
}

/// The bytes that `piece` stands for.
pub open spec fn piece_text(piece: Piece) -> Seq<u8> {
    match piece {
        Piece::Text(text) => text.spec_bytes(),
        Piece::Unsigned(value) => decimal_of(value),
        Piece::Hex(value) => hex_of(value),
    }
}

/// The bytes that `pieces` stand for, one piece after the other.
pub open spec fn render_of(pieces: Seq<Piece>) -> Seq<u8>
    decreases pieces.len(),
{
    if pieces.len() == 0 {
        Seq::empty()
    } else {
        render_of(pieces.drop_last()) + piece_text(pieces.last())
    }
}

/// What the lines hold, as values.
pub open spec fn lines_of(lines: Seq<Vec<u8>>) -> Seq<Seq<u8>> {
    lines.map_values(|line: Vec<u8>| line@)
}

/// The byte that ends a line.
pub const NEWLINE: u8 = 0x0a;

/// The text of `lines`: each line with a newline behind it.
pub open spec fn text_of(lines: Seq<Seq<u8>>) -> Seq<u8>
    decreases lines.len(),
{
    if lines.len() == 0 {
        Seq::empty()
    } else {
        text_of(lines.drop_last()) + lines.last().push(NEWLINE)
    }
}

/// Puts `bytes` behind what `text` holds.
pub fn append_bytes(text: &mut Vec<u8>, bytes: &[u8])
    ensures
        final(text)@ == old(text)@ + bytes@,
{
    let mut i: usize = 0;
    while i < bytes.len()
        invariant
            i <= bytes@.len(),
            text@ == old(text)@ + bytes@.take(i as int),
        decreases bytes@.len() - i,
    {
        text.push(bytes[i]);
        assert(bytes@.take(i + 1) =~= bytes@.take(i as int).push(bytes@[i as int]));
        i = i + 1;
    }
    assert(bytes@.take(i as int) =~= bytes@);
}

/// Puts the digits of `value` to the base `base` behind what `text` holds.
fn append_digits(text: &mut Vec<u8>, value: u64, base: u64)
    requires
        2 <= base <= 16,
    ensures
        final(text)@ == old(text)@ + digits_of(value as nat, base as nat),
{
    let start: usize = text.len();
    let mut rest: u64 = value;
    loop
        invariant_except_break
            2 <= base <= 16,
            start <= text@.len(),
            text@.subrange(0, start as int) == old(text)@,
            digits_of(value as nat, base as nat) == digits_of(rest as nat, base as nat)
                + text@.subrange(start as int, text@.len() as int),
        ensures
            text@ == old(text)@ + digits_of(value as nat, base as nat),
        decreases rest,
    {
        let digit: u8 = (rest % base) as u8;
        let glyph: u8 = if digit < 10 {
            0x30 + digit
        } else {
            0x61 + (digit - 10)
        };
        let ghost before = text@;
        text.insert(start, glyph);
        assert(text@.subrange(0, start as int) =~= before.subrange(0, start as int));
        assert(text@.subrange(start as int, text@.len() as int) =~= seq![glyph]
            + before.subrange(start as int, before.len() as int));
        if rest < base {
            assert(rest % base == rest) by (nonlinear_arith)
                requires
                    0 <= rest < base,
            ;
            assert(digits_of(rest as nat, base as nat) =~= seq![glyph]);
            assert(text@ =~= text@.subrange(0, start as int) + text@.subrange(
                start as int,
                text@.len() as int,
            ));
            break ;
        }
        assert(rest / base < rest) by (nonlinear_arith)
            requires
                rest >= base,
                base >= 2,
        ;
        assert(digits_of(rest as nat, base as nat) =~= digits_of(
            (rest / base) as nat,
            base as nat,
        ) + seq![glyph]);
        rest = rest / base;
    }
}

/// `value` in decimal digits.
pub fn decimal(value: u64) -> (text: Vec<u8>)
    ensures
        text@ == decimal_of(value),
{
    let mut text: Vec<u8> = Vec::new();
    append_digits(&mut text, value, 10);
    text
}

/// `value` in hexadecimal digits behind the prefix `0x`.
pub fn hex(value: u64) -> (text: Vec<u8>)
    ensures
        text@ == hex_of(value),
{
    let mut text: Vec<u8> = Vec::new();
    text.push(0x30);
    text.push(0x78);
    append_digits(&mut text, value, 16);
    assert(text@ =~= hex_of(value));
    text
}

/// Puts the bytes that `piece` stands for behind what `text` holds.
pub fn append_piece(text: &mut Vec<u8>, piece: &Piece)
    ensures
        final(text)@ == old(text)@ + piece_text(*piece),
{
    match piece {
        Piece::Text(literal) => {
            append_bytes(text, literal.as_bytes());
        },
        Piece::Unsigned(value) => {
            append_digits(text, *value, 10);
        },
        Piece::Hex(value) => {
            text.push(0x30);
            text.push(0x78);
            append_digits(text, *value, 16);
            assert(text@ =~= old(text)@ + hex_of(*value));
        },
    }
}

/// The bytes that `pieces` stand for, one piece after the other.
pub fn render(pieces: &[Piece]) -> (text: Vec<u8>)
    ensures
        text@ == render_of(pieces@),
{
    let mut text: Vec<u8> = Vec::new();
    let mut i: usize = 0;
    while i < pieces.len()
        invariant
            i <= pieces@.len(),
            text@ == render_of(pieces@.take(i as int)),
        decreases pieces@.len() - i,
    {
        append_piece(&mut text, &pieces[i]);
        assert(pieces@.take(i + 1).drop_last() =~= pieces@.take(i as int));
        i = i + 1;
    }
    assert(pieces@.take(i as int) =~= pieces@);
    text
}

} // verus!
