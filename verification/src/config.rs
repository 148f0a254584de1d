//! The immutable parameters of one render call.

use crate::writer::Writer;
use vstd::prelude::*;

verus! {

/// Configuration of a render call, supplied by the caller and read-only to
/// the compositor.
#[derive(Clone, Copy, Debug)]
pub struct Config {
    /// Make the pixel at the top left corner render with this x offset, in
    /// terminal columns. Only ever added to the cursor position, so only
    /// non-negative offsets are supported.
    pub x: u16,
    /// Row offset. With `absolute_offset` it is an absolute terminal row and
    /// must be non-negative; otherwise a negative value moves the cursor up
    /// and a positive one emits that many line breaks first.
    pub y: i16,
    /// Whether `y` is an absolute row rather than relative to the cursor.
    pub absolute_offset: bool,
    /// Leave fully transparent pixels unpainted instead of drawing the
    /// checkerboard pattern.
    pub transparent: bool,
    /// Whether the terminal accepts 24-bit colour; otherwise colours are
    /// quantized to the 256-colour palette.
    pub truecolor: bool,
    /// Optional bound or target for the output width, in terminal columns.
    pub width: Option<u32>,
    /// Optional bound or target for the output height, in terminal cells
    /// (each worth two pixel rows).
    pub height: Option<u32>,
    /// Whether the caller wants the image resized to the computed target
    /// dimensions before rendering.
    pub resize: bool,
    /// Send output to the error stream instead of standard output.
    pub use_stderr: bool,
    /// An explicit stream choice that wins over `use_stderr`.
    pub override_writer: Option<Writer>,
}

impl Config {
    /// The one configuration the compositor rejects: an absolute offset with a
    /// negative row target.
    pub open spec fn invalid(self) -> bool {
        self.absolute_offset && self.y < 0
    }
}

impl Default for Config {
    /// No offsets, no bounds, relative positioning, checkerboard for
    /// transparency, 256-colour output to standard output, resizing on.
    fn default() -> (c: Config)
        ensures
            c.x == 0 && c.y == 0,
            !c.absolute_offset,
            !c.transparent,
            !c.truecolor,
            c.width is None && c.height is None,
            c.resize,
            !c.use_stderr,
            c.override_writer is None,
    {
        Config {
            x: 0,
            y: 0,
            absolute_offset: false,
            transparent: false,
            truecolor: false,
            width: None,
            height: None,
            resize: true,
            use_stderr: false,
            override_writer: None,
        }
    }
}

} // verus!
