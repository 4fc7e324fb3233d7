//! The writer: the one owner of the display buffer, which turns bytes of
//! text into stores to its cells.

use vstd::prelude::*;
use vstd::string::StringSliceAdditionalSpecFns;
use volatile::Volatile;

use crate::drivers::vga::cell::{cell_of, cell_read, cell_write, held, ScreenChar, BLANK};
use crate::drivers::vga::color::{ColorCode, DEFAULT_ATTRIBUTE};
use crate::drivers::vga::screen::{
    lemma_write_in_parts, scrolled, Screen, BUFFER_CELLS, BUFFER_HEIGHT, BUFFER_WIDTH,
};
use crate::text::{lines_of, render, render_of, text_of, Piece, NEWLINE};

verus! {

/// Writes text to a display buffer and keeps the cursor and the attribute
/// of the glyphs to come.
pub struct Writer<'a> {
    column_position: usize,
    row_position: usize,
    color_code: ColorCode,
    buffer: &'a mut [Volatile<u16>; BUFFER_CELLS],
}

impl<'a> View for Writer<'a> {
    type V = Screen;

    /// What the display shows.
    closed spec fn view(&self) -> Screen {
        Screen {
            cells: Seq::new(2000, |i: int| held(self.buffer@[i])),
            column: self.column_position as nat,
            row: self.row_position as nat,
            color: self.color_code.0,
        }
    }
}

impl<'a> Writer<'a> {
    #[verifier::type_invariant]
    spec fn cursor_in_grid(self) -> bool {
        &&& self.column_position <= 80
        &&& self.row_position < 25
    }

    /// Takes over `buffer` and initialises the display: every cell blank,
    /// the initial attribute, the cursor at the origin.
    pub fn new(buffer: &'a mut [Volatile<u16>; BUFFER_CELLS]) -> (writer: Writer<'a>)
        ensures
            writer@ == Screen::cleared(DEFAULT_ATTRIBUTE),
    {
        let mut writer = Writer {
            column_position: 0,
            row_position: 0,
            color_code: ColorCode::initial(),
            buffer,
        };
        writer.clear();
        writer
    }

    /// Initialises the display again: every cell blank, the initial
    /// attribute, the cursor at the origin.
    pub fn clear(&mut self)
        ensures
            final(self)@ == Screen::cleared(DEFAULT_ATTRIBUTE),
    {
        proof {
            use_type_invariant(&*self);
        }
        self.color_code = ColorCode::initial();
        self.row_position = 0;
        self.column_position = 0;
        let blank: u16 = ScreenChar { ascii_character: BLANK, color_code: self.color_code }.encode();
        let mut i: usize = 0;
        while i < BUFFER_CELLS
            invariant
                i <= 2000,
                blank == cell_of(BLANK, DEFAULT_ATTRIBUTE),
                self@.column == 0,
                self@.row == 0,
                self@.color == DEFAULT_ATTRIBUTE,
                forall|j: int| 0 <= j < i ==> #[trigger] self@.cells[j] == blank,
            decreases 2000 - i,
        {
            proof {
                use_type_invariant(&*self);
            }
            let ghost shown = self@;
            cell_write(&mut self.buffer[i], blank);
            assert(self@.cells =~= shown.cells.update(i as int, blank));
            i = i + 1;
        }
        assert(self@.cells =~= Screen::cleared(DEFAULT_ATTRIBUTE).cells);
    }

    /// Moves every row up by one and blanks the bottom row.
    fn scroll(&mut self)
        ensures
            final(self)@ == (Screen {
                cells: scrolled(old(self)@.cells, old(self)@.color),
                column: old(self)@.column,
                row: old(self)@.row,
                color: old(self)@.color,
            }),
    {
        proof {
            use_type_invariant(&*self);
        }
        let ghost before = self@;
        let mut i: usize = 0;
        while i < BUFFER_CELLS - BUFFER_WIDTH
            invariant
                i <= 1920,
                before.cells.len() == 2000,
                self@.column == before.column,
                self@.row == before.row,
                self@.color == before.color,
                forall|j: int|
                    0 <= j < 2000 ==> #[trigger] self@.cells[j] == if j < i {
                        before.cells[j + 80]
                    } else {
                        before.cells[j]
                    },
            decreases 1920 - i,
        {
            proof {
                use_type_invariant(&*self);
            }
            let ghost shown = self@;
            let word: u16 = cell_read(&self.buffer[i + BUFFER_WIDTH]);
            assert(word == shown.cells[i + 80]);
            cell_write(&mut self.buffer[i], word);
            assert(self@.cells =~= shown.cells.update(i as int, word));
            i = i + 1;
        }
        let blank: u16 = ScreenChar { ascii_character: BLANK, color_code: self.color_code }.encode();
        while i < BUFFER_CELLS
            invariant
                1920 <= i <= 2000,
                before.cells.len() == 2000,
                blank == cell_of(BLANK, before.color),
                self@.column == before.column,
                self@.row == before.row,
                self@.color == before.color,
                forall|j: int|
                    0 <= j < 2000 ==> #[trigger] self@.cells[j] == if j < 1920 {
                        before.cells[j + 80]
                    } else if j < i {
                        blank
                    } else {
                        before.cells[j]
                    },
            decreases 2000 - i,
        {
            proof {
                use_type_invariant(&*self);
            }
            let ghost shown = self@;
            cell_write(&mut self.buffer[i], blank);
            assert(self@.cells =~= shown.cells.update(i as int, blank));
            i = i + 1;
        }
        assert(self@.cells =~= scrolled(before.cells, before.color));
    }

    /// Ends the row: the cursor goes to the start of the next row, and from
    /// the bottom row the grid scrolls.
    pub fn new_line(&mut self)
        ensures
            final(self)@ == old(self)@.new_line(),
    {
        proof {
            use_type_invariant(&*self);
        }
        if self.row_position + 1 < BUFFER_HEIGHT {
            self.row_position = self.row_position + 1;
        } else {
            self.scroll();
        }
        self.column_position = 0;
    }

    /// Writes one byte: a newline ends the row, any other byte is put at
    /// the cursor as a glyph, in a new row if the cursor stood behind a
    /// full one.
    pub fn write_byte(&mut self, byte: u8)
        ensures
            final(self)@ == old(self)@.write_byte(byte),
    {
        proof {
            use_type_invariant(&*self);
        }
        if byte == NEWLINE {
            self.new_line();
        } else {
            if self.column_position >= BUFFER_WIDTH {
                self.new_line();
            }
            proof {
                use_type_invariant(&*self);
            }
            let ghost at = self@;
            let index: usize = self.row_position * BUFFER_WIDTH + self.column_position;
            let word: u16 = ScreenChar { ascii_character: byte, color_code: self.color_code }.encode();
            cell_write(&mut self.buffer[index], word);
            self.column_position = self.column_position + 1;
            assert(self@.cells =~= at.cells.update(index as int, word));
        }
    }

    /// Writes the bytes of `text`, one after the other.
    pub fn write_bytes(&mut self, text: &[u8])
        ensures
            final(self)@ == old(self)@.write(text@),
    {
        let mut i: usize = 0;
        while i < text.len()
            invariant
                i <= text@.len(),
                self@ == old(self)@.write(text@.take(i as int)),
            decreases text@.len() - i,
        {
            self.write_byte(text[i]);
            assert(text@.take(i + 1).drop_last() =~= text@.take(i as int));
            i = i + 1;
        }
        assert(text@.take(i as int) =~= text@);
    }

    /// Writes the bytes of `text`, one after the other.
    pub fn write_str(&mut self, text: &str)
        ensures
            final(self)@ == old(self)@.write(text.spec_bytes()),
    {
        self.write_bytes(text.as_bytes());
    }

    /// Writes the bytes of `line` and ends the row.
    pub fn write_line(&mut self, line: &[u8])
        ensures
            final(self)@ == old(self)@.write(line@.push(NEWLINE)),
    {
        self.write_bytes(line);
        self.new_line();
        assert(line@.push(NEWLINE).drop_last() =~= line@);
    }

    /// Writes `lines`, each in a row of its own.
    pub fn write_lines(&mut self, lines: &[Vec<u8>])
        ensures
            final(self)@ == old(self)@.write(text_of(lines_of(lines@))),
    {
        let mut i: usize = 0;
        while i < lines.len()
            invariant
                i <= lines@.len(),
                self@ == old(self)@.write(text_of(lines_of(lines@.take(i as int)))),
            decreases lines@.len() - i,
        {
            let ghost above = lines_of(lines@.take(i as int));
            self.write_line(lines[i].as_slice());
            proof {
                let through = lines_of(lines@.take(i + 1));
                assert(through.drop_last() =~= above);
                assert(through.last() == lines@[i as int]@);
                lemma_write_in_parts(old(self)@, text_of(above), lines@[i as int]@.push(NEWLINE));
            }
            i = i + 1;
        }
        assert(lines@.take(i as int) =~= lines@);
    }

    /// Writes what `pieces` stand for.
    pub fn print(&mut self, pieces: &[Piece])
        ensures
            final(self)@ == old(self)@.write(render_of(pieces@)),
    {
        let text = render(pieces);
        self.write_bytes(text.as_slice());
    }

    /// Writes what `pieces` stand for and ends the row.
    pub fn println(&mut self, pieces: &[Piece])
        ensures
            final(self)@ == old(self)@.write(render_of(pieces@).push(NEWLINE)),
    {
        self.print(pieces);
        self.new_line();
        assert(render_of(pieces@).push(NEWLINE).drop_last() =~= render_of(pieces@));
    }

    /// Sets the attribute of the glyphs to come.
    pub fn set_color(&mut self, color: ColorCode)
        ensures
            final(self)@ == old(self)@.with_color(color.0),
    {
        proof {
            use_type_invariant(&*self);
        }
        self.color_code = color;
        assert(self@.cells =~= old(self)@.cells);
    }

    /// The attribute of the glyphs to come.
    pub fn color(&self) -> (color: ColorCode)
        ensures
            color.0 == self@.color,
    {
        self.color_code
    }

    /// The column of the cursor. What a writer shows is always a grid of 80
    /// by 25 cells with the cursor inside it.
    pub fn column(&self) -> (column: usize)
        ensures
            column == self@.column,
            self@.wf(),
    {
        proof {
            use_type_invariant(self);
        }
        self.column_position
    }

    /// The row of the cursor. What a writer shows is always a grid of 80 by
    /// 25 cells with the cursor inside it.
    pub fn row(&self) -> (row: usize)
        ensures
            row == self@.row,
            self@.wf(),
    {
        proof {
            use_type_invariant(self);
        }
        self.row_position
    }

    /// What the cell in row `row` and column `column` shows; `None` outside
    /// the grid.
    pub fn cell(&self, row: usize, column: usize) -> (shown: Option<ScreenChar>)
        ensures
            shown == if row < 25 && column < 80 {
                Some(ScreenChar::decode(self@.cell(row as int, column as int)))
            } else {
                None
            },
    {
        if row < BUFFER_HEIGHT && column < BUFFER_WIDTH {
            let word: u16 = cell_read(&self.buffer[row * BUFFER_WIDTH + column]);
            Some(ScreenChar::decode(word))
        } else {
            None
        }
    }
}

} // verus!
