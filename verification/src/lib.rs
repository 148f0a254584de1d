//! Renders a raster image inside a text terminal by approximating each 1x2
//! block of pixels as one character cell, using ANSI colour codes and the
//! Unicode half-block glyphs.
//!
//! The crate has two cooperating pieces: a resizer, a pure function from
//! source dimensions and optional bounds to target dimensions, and a block
//! compositor, which walks a pixel grid two rows at a time and emits cursor
//! moves, colour codes and glyphs through an abstract output sink.

pub mod ansi;
pub mod block;
pub mod color;
pub mod config;
pub mod error;
pub mod grid;
pub mod resize;
pub mod sink;
pub mod utils;
pub mod writer;
