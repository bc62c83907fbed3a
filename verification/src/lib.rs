//! Annotates a pre-rendered source listing with per-line background colors
//! derived from version-control blame metadata: lines attributed to older
//! revisions are tinted toward the start of a color gradient, newer ones
//! toward its end.
//!
//! The library holds all of the program's logic — argument parsing, the
//! revision index, gradient generation, and line rendering — as verified
//! functions over plain values. Reading the three input files and printing
//! the result is left to the binary around it.

pub mod args;
pub mod color;
pub mod numtext;
pub mod palette;
pub mod render;
pub mod revindex;
pub mod text;
