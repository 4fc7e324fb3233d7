//! Device drivers. The text display is the only device driven so far.

pub mod vga;
