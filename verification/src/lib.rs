//! The editing core of the Zord editor: text buffers with bounded undo and
//! redo history, cursor and selection handling, editor views and splits,
//! the output log, and the small text rules the user interface applies
//! (syntax colouring, log colouring, explorer icons).

pub mod rope;
pub mod lines;
pub mod text;
pub mod buffer;
pub mod editing;
pub mod clock;
pub mod workspace;
pub mod syntax;
pub mod display;
pub mod laws;
pub mod shortcuts;
pub mod frame;
