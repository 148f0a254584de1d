//! Selection of the process stream that rendered output goes to. The struct
//! only records the choice; the actual stream handles live with the caller,
//! outside the library.

use crate::config::Config;
use vstd::prelude::*;

verus! {

/// Which standard stream rendered output should be sent to.
#[derive(Clone, Copy, PartialEq, Eq, Structural, Debug)]
pub struct Writer {
    use_stderr: bool,
}

impl Writer {
    /// Whether this writer targets the error stream instead of standard
    /// output.
    pub closed spec fn is_stderr(self) -> bool {
        self.use_stderr
    }

    /// A writer that outputs to the error stream.
    pub fn stderr() -> (w: Writer)
        ensures
            w.is_stderr(),
    {
        Writer { use_stderr: true }
    }

    /// A writer that outputs to standard output.
    pub fn stdout() -> (w: Writer)
        ensures
            !w.is_stderr(),
    {
        Writer { use_stderr: false }
    }

    /// The writer a configuration asks for: an explicit override wins over the
    /// `use_stderr` flag.
    pub fn from_config(config: &Config) -> (w: Writer)
        ensures
            config.override_writer is Some ==> w == config.override_writer.unwrap(),
            config.override_writer is None ==> w.is_stderr() == config.use_stderr,
    {
        match config.override_writer {
            Some(writer) => writer,
            None => Writer { use_stderr: config.use_stderr },
        }
    }

    /// Read the stream choice back out, for the caller that opens the stream.
    pub fn targets_stderr(&self) -> (b: bool)
        ensures
            b == self.is_stderr(),
    {
        self.use_stderr
    }
}

} // verus!
