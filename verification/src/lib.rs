//! Core of a terminal text viewer: a line store, a cursor state machine,
//! an input dispatcher, and a renderer that emits draw commands.
//!
//! All terminal I/O is performed by the surrounding application; this crate
//! only decides what to draw and where the cursor goes.

pub mod buffer;
pub mod editor;
pub mod terminal;
pub mod view;

pub use buffer::Buffer;
pub use editor::{Editor, InputKey, Location};
pub use terminal::{DrawCmd, Position, Size, SpecCmd, Terminal};
pub use view::Viewer;
