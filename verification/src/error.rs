//! The error model: an invalid configuration is rejected before any output is
//! produced; sink failures other than a closed downstream pipe surface as I/O
//! errors; a broken pipe is deliberately treated as a successful render.

use vstd::prelude::*;

verus! {

/// Why a render call failed.
#[derive(Clone, Copy, PartialEq, Eq, Structural, Debug)]
pub enum RenderError {
    /// The caller supplied a combination the compositor cannot act on:
    /// absolute-offset mode together with a negative row target.
    InvalidConfiguration,
    /// The output sink failed for a reason other than a closed downstream
    /// pipe.
    Io,
}

/// How a sink reports a failed flush.
#[derive(Clone, Copy, PartialEq, Eq, Structural, Debug)]
pub enum SinkError {
    /// The downstream consumer closed the pipe; rendering treats this as
    /// success.
    BrokenPipe,
    /// Any other output failure; rendering surfaces this as an I/O error.
    Other,
}

impl RenderError {
    /// A short description of the error, for callers that report it.
    pub fn message(&self) -> (m: &'static str)
        ensures
            *self is InvalidConfiguration ==> m@ == "invalid configuration"@,
            *self is Io ==> m@ == "io error"@,
    {
        match self {
            RenderError::InvalidConfiguration => "invalid configuration",
            RenderError::Io => "io error",
        }
    }
}

} // verus!
