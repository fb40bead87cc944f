//! The line pipeline of a `cat`-style text display tool.
//!
//! The crate turns raw input lines into the bytes to display, under six
//! independent display flags. It performs no input or output of its own: a
//! driver hands it the lines and writes out what it returns.

pub mod laws;
pub mod line;
pub mod number;
pub mod options;
pub mod pipeline;
pub mod render;

pub use line::LineSource;
pub use options::{CatOptions, LineNumberStyle};
pub use pipeline::{kitty, step, PipelineState};
pub use render::write_bytes_to_writer;
