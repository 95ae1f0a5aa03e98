//! A reader over bytes held in memory.
use vstd::prelude::*;

use crate::model::error::IoError;
use crate::model::reader::{read_ok, Reader};

verus! {

pub struct InlineReader {
    data: Vec<u8>,
}

impl InlineReader {
    pub fn new(data: Vec<u8>) -> (r: Self)
        ensures
            r.contents() == data@,
            r.complete(),
    {
        InlineReader { data }
    }
}

impl Reader for InlineReader {
    closed spec fn contents(&self) -> Seq<u8> {
        self.data@
    }

    /// Reads from memory never fail and never stop short.
    closed spec fn complete(&self) -> bool {
        true
    }

    fn len(&self) -> (r: u64) {
        self.data.len() as u64
    }

    fn read_at(&mut self, offset: u64, buffer: &mut [u8]) -> (r: Result<usize, IoError>)
        ensures
            r matches Ok(n) && n == (if offset < old(self).contents().len() { vstd::math::min(
                old(buffer)@.len() as int,
                old(self).contents().len() - offset,
            ) } else { 0 }),
    {
        if offset >= self.data.len() as u64 || buffer.len() == 0 {
            proof {
                assert(buffer@.subrange(0, buffer@.len() as int) =~= buffer@);
            }
            return Ok(0);
        }
        let start = offset as usize;
        let available = self.data.len() - start;
        let count = if available < buffer.len() { available } else { buffer.len() };
        let ghost before = buffer@;
        let mut i: usize = 0;
        while i < count
            invariant
                i <= count,
                count <= buffer@.len(),
                start + count <= self.data@.len(),
                self.data@.len() <= usize::MAX,
                buffer@.len() == before.len(),
                forall|j: int| 0 <= j < i ==> buffer@[j] == self.data@[start + j],
                forall|j: int| i <= j < buffer@.len() ==> buffer@[j] == before[j],
            decreases count - i,
        {
            buffer[i] = self.data[start + i];
            i = i + 1;
        }
        proof {
            assert(buffer@.subrange(0, count as int) =~= self.data@.subrange(start as int, start + count));
            assert(buffer@.subrange(count as int, buffer@.len() as int) =~= before.subrange(count as int, before.len() as int));
        }
        Ok(count)
    }
}

impl<R: Reader> Reader for Box<R> {
    open spec fn contents(&self) -> Seq<u8> {
        (**self).contents()
    }

    open spec fn complete(&self) -> bool {
        (**self).complete()
    }

    fn len(&self) -> (r: u64) {
        (**self).len()
    }

    fn read_at(&mut self, offset: u64, buffer: &mut [u8]) -> (r: Result<usize, IoError>) {
        (**self).read_at(offset, buffer)
    }
}

} // verus!
