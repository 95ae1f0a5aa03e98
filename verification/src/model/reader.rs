//! Random-access byte readers.
use vstd::prelude::*;

use crate::model::error::IoError;
use crate::text::IntoText;

verus! {

/// What a successful read of `n` bytes at `offset` leaves in the buffer: the first
/// `n` bytes are the stream's bytes from `offset`, the rest is untouched.
pub open spec fn read_ok(contents: Seq<u8>, offset: int, before: Seq<u8>, after: Seq<u8>, n: int) -> bool {
    &&& 0 <= n <= before.len()
    &&& after.len() == before.len()
    &&& n > 0 ==> 0 <= offset && offset + n <= contents.len() && after.subrange(0, n) == contents.subrange(offset, offset + n)
    &&& after.subrange(n, after.len() as int) == before.subrange(n, before.len() as int)
}

/// How many bytes a read into a buffer of `buffer_len` bytes at `offset` yields when it
/// delivers everything asked for that a stream of `len` bytes holds.
pub open spec fn full_read_len(len: nat, offset: int, buffer_len: nat) -> nat {
    if offset >= len {
        0
    } else if buffer_len < len - offset {
        buffer_len
    } else {
        (len - offset) as nat
    }
}

/// A random-access view of a finite byte stream.
pub trait Reader {
    /// The byte stream this reader exposes.
    spec fn contents(&self) -> Seq<u8>;

    /// Whether every read succeeds and delivers all the bytes asked for that the stream holds.
    spec fn complete(&self) -> bool;

    /// The stream's length in bytes.
    fn len(&self) -> (r: u64)
        ensures
            r as int == self.contents().len(),
    ;

    /// Reads up to `buffer.len()` bytes at `offset`; returns how many were read.
    fn read_at(&mut self, offset: u64, buffer: &mut [u8]) -> (r: Result<usize, IoError>)
        ensures
            final(self).contents() == old(self).contents(),
            final(self).complete() == old(self).complete(),
            final(buffer)@.len() == old(buffer)@.len(),
            r matches Ok(n) ==> read_ok(old(self).contents(), offset as int, old(buffer)@, final(buffer)@, n as int),
            old(buffer)@.len() == 0 || offset >= old(self).contents().len() ==> (r matches Ok(n) && n == 0),
            old(self).complete() ==> (r matches Ok(n) && n == full_read_len(old(self).contents().len(), offset as int,
                old(buffer)@.len())),
    ;
}

/// Identifies a live byte stream that a materialized file is read from.
#[derive(Debug, PartialEq, Eq)]
pub struct ReaderHandle {
    pub description: String,
}

impl Clone for ReaderHandle {
    fn clone(&self) -> (r: Self)
        ensures
            r == *self,
    {
        ReaderHandle { description: self.description.clone() }
    }
}

impl ReaderHandle {
    pub fn new<S: IntoText>(description: S) -> (r: Self)
        ensures
            r.description@ == description.text(),
    {
        ReaderHandle { description: description.into_text() }
    }
}

} // verus!
