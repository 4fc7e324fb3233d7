//! What the display shows, as a value: the words of its cells, row by row,
//! the cursor, and the attribute of the glyphs to come.

use vstd::prelude::*;

use crate::drivers::vga::cell::{cell_of, BLANK};
use crate::text::NEWLINE;

verus! {

/// Columns of the grid.
pub const BUFFER_WIDTH: usize = 80;

/// Rows of the grid.
pub const BUFFER_HEIGHT: usize = 25;

/// Cells of the grid.
pub const BUFFER_CELLS: usize = 2000;

/// The state of the display. The cell in row `r` and column `c` is
/// `cells[r * 80 + c]`. The cursor stands where the next glyph goes; in
/// column 80 it stands behind a full row, and the next glyph opens a new one.
pub struct Screen {
    pub cells: Seq<u16>,
    pub column: nat,
    pub row: nat,
    pub color: u8,
}

/// The cells after the grid has moved up by one row: each row holds what
/// the row below it held, and the bottom row is blank in `color`.
pub open spec fn scrolled(cells: Seq<u16>, color: u8) -> Seq<u16> {
    Seq::new(
        2000,
        |i: int|
            if i < 1920 {
                cells[i + 80]
            } else {
                cell_of(BLANK, color)
            },
    )
}

impl Screen {
    /// A grid of 80 by 25 cells with the cursor inside it.
    pub open spec fn wf(self) -> bool {
        &&& self.cells.len() == 2000
        &&& self.column <= 80
        &&& self.row < 25
    }

    /// The display with every cell blank in `color` and the cursor at the
    /// origin.
    pub open spec fn cleared(color: u8) -> Screen {
        Screen { cells: Seq::new(2000, |i: int| cell_of(BLANK, color)), column: 0, row: 0, color }
    }

    /// The display after the cursor has gone to the start of the next row.
    /// From the bottom row there is no next row: the grid scrolls, and the
    /// cursor goes to the start of the new bottom row.
    pub open spec fn new_line(self) -> Screen {
        if self.row + 1 < 25 {
            Screen { cells: self.cells, column: 0, row: self.row + 1, color: self.color }
        } else {
            Screen {
                cells: scrolled(self.cells, self.color),
                column: 0,
                row: self.row,
                color: self.color,
            }
        }
    }

    /// The display after `glyph` has been put at the cursor, in a new row
    /// if the cursor stood behind a full one.
    pub open spec fn put(self, glyph: u8) -> Screen {
        let at = if self.column >= 80 {
            self.new_line()
        } else {
            self
        };
        Screen {
            cells: at.cells.update((at.row * 80 + at.column) as int, cell_of(glyph, at.color)),
            column: at.column + 1,
            row: at.row,
            color: at.color,
        }
    }

    /// The display after one byte of text: a newline ends the row wherever
    /// the cursor stands, any other byte is put as a glyph.
    pub open spec fn write_byte(self, byte: u8) -> Screen {
        if byte == NEWLINE {
            self.new_line()
        } else {
            self.put(byte)
        }
    }

    /// The display after the bytes of `text`, one after the other.
    pub open spec fn write(self, text: Seq<u8>) -> Screen
        decreases text.len(),
    {
        if text.len() == 0 {
            self
        } else {
            self.write(text.drop_last()).write_byte(text.last())
        }
    }

    /// The display with `color` as the attribute of the glyphs to come.
    pub open spec fn with_color(self, color: u8) -> Screen {
        Screen { cells: self.cells, column: self.column, row: self.row, color }
    }

    /// The word of the cell in row `row` and column `column`.
    pub open spec fn cell(self, row: int, column: int) -> u16 {
        self.cells[row * 80 + column]
    }
}

/// Writing keeps the grid's size, the cursor inside it and the attribute.
pub proof fn lemma_write_keeps_shape(screen: Screen, text: Seq<u8>)
    requires
        screen.wf(),
    ensures
        screen.write(text).wf(),
        screen.write(text).color == screen.color,
    decreases text.len(),
{
    if text.len() > 0 {
        lemma_write_keeps_shape(screen, text.drop_last());
    }
}

/// Writing one text after another is writing the two as one.
pub proof fn lemma_write_in_parts(screen: Screen, first: Seq<u8>, second: Seq<u8>)
    ensures
        screen.write(first + second) == screen.write(first).write(second),
    decreases second.len(),
{
    if second.len() == 0 {
        assert(first + second =~= first);
    } else {
        assert((first + second).drop_last() =~= first + second.drop_last());
        lemma_write_in_parts(screen, first, second.drop_last());
    }
}

/// Text without a newline fills the grid cell by cell from the cursor on
/// and runs from the end of a row into the start of the next: byte `k`
/// lands `k` cells behind the cursor, counted row by row, so what does not
/// fit into a row's 80 columns goes on in column 0 of the row below. No
/// other cell changes, and the cursor ends up behind the last glyph.
pub proof fn lemma_text_wraps(screen: Screen, text: Seq<u8>)
    requires
        screen.wf(),
        forall|k: int| 0 <= k < text.len() ==> text[k] != NEWLINE,
        screen.row * 80 + screen.column + text.len() <= 2000,
    ensures
        ({
            let after = screen.write(text);
            let start = screen.row * 80 + screen.column;
            &&& after.wf()
            &&& after.color == screen.color
            &&& after.row * 80 + after.column == start + text.len()
            &&& text.len() > 0 ==> after.column > 0
            &&& forall|i: int|
                0 <= i < 2000 ==> #[trigger] after.cells[i] == if start <= i < start + text.len() {
                    cell_of(text[i - start], screen.color)
                } else {
                    screen.cells[i]
                }
        }),
    decreases text.len(),
{
    if text.len() > 0 {
        let front = text.drop_last();
        lemma_text_wraps(screen, front);
        let before = screen.write(front);
        let after = screen.write(text);
        assert(after == before.put(text.last()));
        let start = screen.row * 80 + screen.column;
        assert forall|i: int| 0 <= i < 2000 implies #[trigger] after.cells[i] == if start <= i
            < start + text.len() {
            cell_of(text[i - start], screen.color)
        } else {
            screen.cells[i]
        } by {
            if start <= i < start + front.len() {
                assert(front[i - start] == text[i - start]);
            }
        }
    }
}

/// A new line in the bottom row scrolls the grid: the top row is gone, each
/// of the other 24 rows stands one row higher than before, cell for cell,
/// the bottom row is blank, and the cursor stands at its start.
pub proof fn lemma_new_line_scrolls(screen: Screen)
    requires
        screen.wf(),
        screen.row == 24,
    ensures
        ({
            let after = screen.new_line();
            &&& after.wf()
            &&& after.row == 24
            &&& after.column == 0
            &&& after.color == screen.color
            &&& forall|row: int, column: int|
                0 <= row < 24 && 0 <= column < 80 ==> #[trigger] after.cell(row, column)
                    == screen.cell(row + 1, column)
            &&& forall|column: int|
                0 <= column < 80 ==> #[trigger] after.cell(24, column) == cell_of(
                    BLANK,
                    screen.color,
                )
        }),
{
}

/// Above the bottom row a new line moves the cursor to the start of the
/// next row and changes no cell.
pub proof fn lemma_new_line_moves_down(screen: Screen)
    requires
        screen.wf(),
        screen.row < 24,
    ensures
        screen.new_line() == (Screen {
            cells: screen.cells,
            column: 0,
            row: screen.row + 1,
            color: screen.color,
        }),
{
}

/// A glyph written behind a full row opens the next row: it lands in
/// column 0 of the row that a new line leads to, and the cursor stands in
/// column 1.
pub proof fn lemma_full_row_wraps(screen: Screen, glyph: u8)
    requires
        screen.wf(),
        screen.column == 80,
        glyph != NEWLINE,
    ensures
        ({
            let after = screen.write_byte(glyph);
            let opened = screen.new_line();
            &&& after.row == opened.row
            &&& after.column == 1
            &&& after.cells == opened.cells.update(
                (opened.row * 80) as int,
                cell_of(glyph, screen.color),
            )
        }),
{
}

/// Whether `word` is a word that a write of `text` may leave in a cell of
/// `screen`: one that a cell held before, or a glyph of the text or a blank
/// in the attribute of `screen`.
pub open spec fn whole_word(screen: Screen, text: Seq<u8>, word: u16) -> bool {
    ||| exists|j: int| 0 <= j < 2000 && #[trigger] screen.cells[j] == word
    ||| exists|k: int| 0 <= k < text.len() && word == cell_of(#[trigger] text[k], screen.color)
    ||| word == cell_of(BLANK, screen.color)
}

/// A write stores whole words only. Whatever is written, each cell then
/// holds a word that some cell held before, or a glyph of the text or a
/// blank together with the attribute of the writer: never a glyph of one
/// origin with an attribute of another.
pub proof fn lemma_cells_stay_whole(screen: Screen, text: Seq<u8>)
    requires
        screen.wf(),
    ensures
        forall|i: int|
            0 <= i < 2000 ==> whole_word(screen, text, #[trigger] screen.write(text).cells[i]),
    decreases text.len(),
{
    if text.len() == 0 {
        assert forall|i: int| 0 <= i < 2000 implies whole_word(
            screen,
            text,
            #[trigger] screen.write(text).cells[i],
        ) by {
            assert(screen.cells[i] == screen.write(text).cells[i]);
        }
    } else {
        let front = text.drop_last();
        let before = screen.write(front);
        let after = screen.write(text);
        lemma_cells_stay_whole(screen, front);
        lemma_write_keeps_shape(screen, front);
        assert(after == before.write_byte(text.last()));
        assert forall|word: u16| whole_word(screen, front, word) implies whole_word(
            screen,
            text,
            word,
        ) by {
            if exists|k: int| 0 <= k < front.len() && word == cell_of(#[trigger] front[k], screen.color) {
                let k = choose|k: int|
                    0 <= k < front.len() && word == cell_of(#[trigger] front[k], screen.color);
                assert(text[k] == front[k]);
            }
        }
        assert forall|i: int| 0 <= i < 2000 implies whole_word(
            screen,
            text,
            #[trigger] after.cells[i],
        ) by {
            let word = after.cells[i];
            if word == cell_of(text.last(), screen.color) {
                assert(text[text.len() - 1] == text.last());
            } else if word == cell_of(BLANK, screen.color) {
            } else {
                let moved = before.new_line();
                assert(word == before.cells[i] || word == moved.cells[i]);
                if word == before.cells[i] {
                    assert(whole_word(screen, front, before.cells[i]));
                } else {
                    assert(i < 1920 && word == before.cells[i + 80]);
                    assert(whole_word(screen, front, before.cells[i + 80]));
                }
            }
        }
    }
}

} // verus!
