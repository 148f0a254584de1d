//! The abstract output sink the compositor writes through, and two in-memory
//! implementations: one that records everything (for callers and tests that
//! want the bytes back) and one that fails every flush (to exercise the
//! error policy).

use crate::error::SinkError;
use vstd::prelude::*;

verus! {

/// Anything that can take one flushed terminal row of bytes. The real
/// terminal streams live outside the library and implement this there.
pub trait Sink {
    /// Take one completed row of output. A sink whose downstream consumer
    /// disappeared reports `BrokenPipe`; any other failure is `Other`.
    fn flush_row(&mut self, buf: &Vec<u8>) -> Result<(), SinkError>;
}

/// What a `String::from_utf8_lossy` decoding of a byte sequence reads as; a
/// function of the bytes alone.
pub uninterp spec fn utf8_lossy_of(bytes: Seq<u8>) -> Seq<char>;

/// Relies on `String::from_utf8_lossy`: deterministic in the bytes alone, and
/// ASCII bytes, being valid UTF-8, decode to the same characters.
#[verifier::external_body]
fn utf8_lossy(bytes: &Vec<u8>) -> (s: String)
    ensures
        s@ == utf8_lossy_of(bytes@),
        (forall|i: int| 0 <= i < bytes@.len() ==> bytes@[i] < 128) ==> s@ == bytes@.map_values(
            |b: u8| b as char,
        ),
{
    String::from_utf8_lossy(bytes.as_slice()).to_string()
}

/// An in-memory sink: every flushed row is appended to an internal buffer
/// that can be read back.
pub struct StringWriter {
    inner_buf: Vec<u8>,
}

impl StringWriter {
    /// Everything flushed to this sink so far.
    pub closed spec fn contents(self) -> Seq<u8> {
        self.inner_buf@
    }

    /// An empty in-memory sink.
    pub fn new() -> (w: StringWriter)
        ensures
            w.contents() == Seq::<u8>::empty(),
    {
        StringWriter { inner_buf: Vec::new() }
    }

    /// The accumulated output, decoded as text.
    pub fn read(&mut self) -> (s: String)
        ensures
            *final(self) == *old(self),
            s@ == utf8_lossy_of(old(self).contents()),
    {
        utf8_lossy(&self.inner_buf)
    }

    /// The accumulated output, as raw bytes.
    pub fn bytes(&self) -> (b: &Vec<u8>)
        ensures
            b@ == self.contents(),
    {
        &self.inner_buf
    }
}

impl Sink for StringWriter {
    fn flush_row(&mut self, buf: &Vec<u8>) -> Result<(), SinkError> {
        self.inner_buf.extend_from_slice(buf.as_slice());
        Ok(())
    }
}

/// A sink whose every flush fails with a fixed error: stands in for a closed
/// or broken output stream.
pub struct FailingWriter {
    /// The error every flush reports.
    pub kind: SinkError,
}

impl FailingWriter {
    /// A sink that always reports the given failure.
    pub fn new(kind: SinkError) -> (w: FailingWriter)
        ensures
            w.kind == kind,
    {
        FailingWriter { kind }
    }
}

impl Sink for FailingWriter {
    fn flush_row(&mut self, _buf: &Vec<u8>) -> Result<(), SinkError> {
        Err(self.kind)
    }
}

} // verus!
