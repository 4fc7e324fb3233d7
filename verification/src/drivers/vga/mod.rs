//! The text display: a grid of 80 columns by 25 rows of cells that the
//! hardware shows as they are written.

pub mod cell;
pub mod color;
pub mod console;
pub mod screen;
pub mod writer;

pub use cell::{ScreenChar, BLANK};
pub use color::{Color, ColorCode, DEFAULT_ATTRIBUTE};
pub use screen::{Screen, BUFFER_CELLS, BUFFER_HEIGHT, BUFFER_WIDTH};
pub use writer::Writer;
pub use console::{init, Console, ConsoleGuard};
