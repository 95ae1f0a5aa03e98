//! A reader exposing a sub-range of another reader.
use vstd::prelude::*;

use crate::model::error::IoError;
use crate::model::reader::{read_ok, Reader};

verus! {

pub struct RangeReader<R: Reader> {
    source: R,
    offset: u64,
    length: u64,
}

impl<R: Reader> RangeReader<R> {
    /// Exposes `length` bytes of `source` starting at `offset`.
    pub fn new(source: R, offset: u64, length: u64) -> (r: Result<Self, IoError>)
        ensures
            r matches Ok(reader) ==> reader.contents() == source.contents().subrange(offset as int, offset + length)
                && reader.complete() == source.complete(),
            (r is Ok) == (offset + length <= source.contents().len()),
            r matches Err(e) ==> e.kind == (if offset + length > u64::MAX {
                std::io::ErrorKind::InvalidInput
            } else {
                std::io::ErrorKind::UnexpectedEof
            }),
    {
        let source_len = source.len();
        let end = match offset.checked_add(length) {
            Some(end) => end,
            None => {
                return Err(IoError::new(std::io::ErrorKind::InvalidInput, String::from_str("reader range overflow")));
            },
        };
        if end > source_len {
            return Err(IoError::new(
                std::io::ErrorKind::UnexpectedEof,
                String::from_str("reader range extends past its source"),
            ));
        }
        Ok(RangeReader { source, offset, length })
    }
}

impl<R: Reader> Reader for RangeReader<R> {
    closed spec fn contents(&self) -> Seq<u8> {
        if self.offset + self.length <= self.source.contents().len() {
            self.source.contents().subrange(self.offset as int, self.offset + self.length)
        } else {
            Seq::empty()
        }
    }

    /// A range reads completely when its source does.
    closed spec fn complete(&self) -> bool {
        self.source.complete()
    }

    fn len(&self) -> (r: u64) {
        let source_len = self.source.len();
        if self.offset <= source_len && self.length <= source_len - self.offset {
            self.length
        } else {
            0
        }
    }

    fn read_at(&mut self, offset: u64, buffer: &mut [u8]) -> (r: Result<usize, IoError>) {
        let source_len = self.source.len();
        if buffer.len() == 0 || offset >= self.length || self.offset > source_len || self.length > source_len - self.offset {
            proof {
                assert(buffer@.subrange(0, buffer@.len() as int) =~= buffer@);
            }
            return Ok(0);
        }
        let available = self.length - offset;
        let requested: usize = if (buffer.len() as u64) < available { buffer.len() } else { available as usize };
        let ghost before = buffer@;
        let ghost contents = self.source.contents();
        let (head, tail) = buffer.split_at_mut(requested);
        let result = self.source.read_at(self.offset + offset, head);
        proof {
            assert(buffer@ == head@ + tail@);
            assert(tail@ == before.subrange(requested as int, before.len() as int));
            if let Ok(n) = result {
                assert(requested <= available);
                assert(offset + n <= self.length);
                let inner = contents.subrange(self.offset as int, self.offset + self.length);
                assert(old(self).contents() == inner);
                assert(buffer@.subrange(0, n as int) =~= head@.subrange(0, n as int));
                assert(inner.subrange(offset as int, offset + n) =~= contents.subrange(self.offset + offset, self.offset + offset + n));
                assert(buffer@.subrange(n as int, buffer@.len() as int) =~= head@.subrange(n as int, head@.len() as int) + tail@);
                assert(before.subrange(n as int, before.len() as int) =~= before.subrange(n as int, requested as int) + before.subrange(requested as int, before.len() as int));
                assert(head@.subrange(n as int, head@.len() as int) == before.subrange(0, requested as int).subrange(n as int, requested as int));
                assert(before.subrange(0, requested as int).subrange(n as int, requested as int) =~= before.subrange(n as int, requested as int));
                assert(read_ok(inner, offset as int, before, buffer@, n as int));
            }
        }
        result
    }
}

} // verus!
