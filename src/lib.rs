//! Buffer engine of a small terminal text editor: a flat character store,
//! its line index, a cursor with a remembered column, and a viewport that
//! scrolls to keep the cursor visible.

pub mod buffer;
pub mod display;
pub mod editor;
pub mod line;
pub mod render;
pub mod status_line;

pub use buffer::{Buffer, Rgb};
pub use display::Display;
pub use editor::{Command, Input, Key, Modifiers, Outcome};
pub use line::Line;
pub use status_line::StatusLine;
