//! A reader exposing a fixed window of every sector of an interleaved stream,
//! such as the user data of raw CD sectors.
use vstd::prelude::*;

use crate::model::error::IoError;
use crate::model::reader::{read_ok, Reader};

verus! {

/// The projection of `sector_count` sectors of `input_size` bytes starting at `source_offset`,
/// keeping `output_size` bytes at `output_offset` of each sector.
pub open spec fn spec_interleaved(
    source: Seq<u8>,
    source_offset: int,
    sector_count: int,
    input_size: int,
    output_offset: int,
    output_size: int,
) -> Seq<u8> {
    Seq::new(
        (sector_count * output_size) as nat,
        |k: int| source[source_offset + (k / output_size) * input_size + output_offset + k % output_size],
    )
}

/// Valid geometry that fits in the source.
pub open spec fn interleaved_fits(
    source_len: int,
    source_offset: int,
    sector_count: int,
    input_size: int,
    output_offset: int,
    output_size: int,
) -> bool {
    &&& input_size > 0
    &&& output_size > 0
    &&& output_offset + output_size <= input_size
    &&& source_offset + sector_count * input_size <= source_len
}

pub struct InterleavedSectorReader<R: Reader> {
    source: R,
    source_offset: u64,
    sector_count: u64,
    input_sector_size: u64,
    output_offset: u64,
    output_sector_size: u64,
}

pub proof fn lemma_within_sector(logical: int, j: int, size: int)
    requires
        size > 0,
        logical >= 0,
        0 <= j,
        logical % size + j < size,
    ensures
        (logical + j) / size == logical / size,
        (logical + j) % size == logical % size + j,
{
    vstd::arithmetic::div_mod::lemma_fundamental_div_mod(logical, size);
    let q = logical / size;
    let r = logical % size;
    assert(logical + j == q * size + (r + j)) by (nonlinear_arith)
        requires
            logical == size * q + r,
    {
    }
    vstd::arithmetic::div_mod::lemma_fundamental_div_mod_converse(logical + j, size, q, r + j);
}

pub proof fn lemma_sector_bounds(logical: int, size: int, count: int, input_size: int, output_offset: int)
    requires
        size > 0,
        0 <= logical < count * size,
        output_offset + size <= input_size,
        output_offset >= 0,
    ensures
        0 <= logical / size < count,
        0 <= logical % size < size,
        (logical / size) * input_size + output_offset + logical % size < count * input_size,
{
    vstd::arithmetic::div_mod::lemma_fundamental_div_mod(logical, size);
    let q = logical / size;
    assert(q < count) by (nonlinear_arith)
        requires
            size > 0,
            logical == size * q + logical % size,
            0 <= logical % size < size,
            logical < count * size,
    {
        if q >= count {
            assert(size * q >= size * count);
        }
    }
    assert(q >= 0) by (nonlinear_arith)
        requires
            size > 0,
            logical == size * q + logical % size,
            0 <= logical % size < size,
            logical >= 0,
    {
    }
    assert(q * input_size + output_offset + logical % size < count * input_size) by (nonlinear_arith)
        requires
            0 <= q < count,
            0 <= logical % size < size,
            output_offset + size <= input_size,
            output_offset >= 0,
    {
        assert(q * input_size + input_size <= count * input_size);
    }
}

impl<R: Reader> InterleavedSectorReader<R> {
    /// Exposes `output_sector_size` bytes at `output_offset` of each of `sector_count`
    /// sectors of `input_sector_size` bytes that start at `source_offset`.
    pub fn new(
        source: R,
        source_offset: u64,
        sector_count: u64,
        input_sector_size: u64,
        output_offset: u64,
        output_sector_size: u64,
    ) -> (r: Result<Self, IoError>)
        ensures
            (r is Ok) == (interleaved_fits(source.contents().len() as int, source_offset as int, sector_count as int,
                input_sector_size as int, output_offset as int, output_sector_size as int)),
            r matches Ok(reader) ==> reader.contents() == spec_interleaved(source.contents(), source_offset as int,
                sector_count as int, input_sector_size as int, output_offset as int, output_sector_size as int)
                && reader.complete() == source.complete(),
            r matches Err(e) ==> e.kind == (if !(input_sector_size > 0 && output_sector_size > 0 && output_offset
                + output_sector_size <= input_sector_size) || source_offset + sector_count * input_sector_size > u64::MAX {
                std::io::ErrorKind::InvalidInput
            } else {
                std::io::ErrorKind::UnexpectedEof
            }),
    {
        let source_len = source.len();
        let output_end = match output_offset.checked_add(output_sector_size) {
            Some(end) => end,
            None => {
                return Err(IoError::new(std::io::ErrorKind::InvalidInput, String::from_str("sector range overflow")));
            },
        };
        if input_sector_size == 0 || output_sector_size == 0 || output_end > input_sector_size {
            return Err(IoError::new(
                std::io::ErrorKind::InvalidInput,
                String::from_str("invalid interleaved sector geometry"),
            ));
        }
        let length = match sector_count.checked_mul(input_sector_size) {
            Some(length) => length,
            None => {
                proof {
                    assert(sector_count * input_sector_size > source_len);
                    assert(source_offset + sector_count * input_sector_size > u64::MAX) by (nonlinear_arith)
                        requires
                            sector_count * input_sector_size > u64::MAX,
                            source_offset >= 0,
                    {
                    }
                }
                return Err(IoError::new(std::io::ErrorKind::InvalidInput, String::from_str("sector range overflow")));
            },
        };
        let end = match source_offset.checked_add(length) {
            Some(end) => end,
            None => {
                return Err(IoError::new(std::io::ErrorKind::InvalidInput, String::from_str("sector range overflow")));
            },
        };
        if end > source_len {
            return Err(IoError::new(
                std::io::ErrorKind::UnexpectedEof,
                String::from_str("interleaved sector range extends past its source"),
            ));
        }
        Ok(InterleavedSectorReader {
            source,
            source_offset,
            sector_count,
            input_sector_size,
            output_offset,
            output_sector_size,
        })
    }

    spec fn fits(&self) -> bool {
        interleaved_fits(self.source.contents().len() as int, self.source_offset as int, self.sector_count as int,
            self.input_sector_size as int, self.output_offset as int, self.output_sector_size as int)
    }

    fn check_fits(&self) -> (r: bool)
        ensures
            r == self.fits(),
            self.source.contents().len() <= u64::MAX,
    {
        let source_len = self.source.len();
        if self.input_sector_size == 0 || self.output_sector_size == 0 || self.output_offset > self.input_sector_size
            || self.output_sector_size > self.input_sector_size - self.output_offset {
            return false;
        }
        match self.sector_count.checked_mul(self.input_sector_size) {
            Some(length) => self.source_offset <= source_len && length <= source_len - self.source_offset,
            None => {
                proof {
                    assert(self.sector_count * self.input_sector_size > source_len);
                }
                false
            },
        }
    }
}

impl<R: Reader> Reader for InterleavedSectorReader<R> {
    closed spec fn contents(&self) -> Seq<u8> {
        if self.fits() {
            spec_interleaved(self.source.contents(), self.source_offset as int, self.sector_count as int,
                self.input_sector_size as int, self.output_offset as int, self.output_sector_size as int)
        } else {
            Seq::empty()
        }
    }

    /// The projection reads completely when its source does.
    closed spec fn complete(&self) -> bool {
        self.source.complete()
    }

    fn len(&self) -> (r: u64) {
        if self.check_fits() {
            proof {
                assert(self.sector_count * self.output_sector_size <= self.sector_count * self.input_sector_size) by (nonlinear_arith)
                    requires
                        self.output_sector_size <= self.input_sector_size,
                {
                }
            }
            let source_len = self.source.len();
            proof {
                assert(self.sector_count * self.input_sector_size <= source_len);
            }
            self.sector_count * self.output_sector_size
        } else {
            0
        }
    }

    fn read_at(&mut self, offset: u64, buffer: &mut [u8]) -> (r: Result<usize, IoError>) {
        let _source_len = self.source.len();
        let length = self.len();
        if buffer.len() == 0 || offset >= length {
            proof {
                assert(buffer@.subrange(0, buffer@.len() as int) =~= buffer@);
            }
            return Ok(0);
        }
        let ghost contents = self.contents();
        let ghost src = self.source.contents();
        let ghost before = buffer@;
        let requested: usize = if (buffer.len() as u64) < length - offset { buffer.len() } else { (length - offset) as usize };
        let so = self.source_offset;
        let ins = self.input_sector_size;
        let oo = self.output_offset;
        let outs = self.output_sector_size;
        let mut written: usize = 0;
        while written < requested
            invariant_except_break
                written <= requested,
            invariant
                written <= requested <= buffer@.len(),
                offset + requested <= length,
                length as int == contents.len(),
                contents.len() > 0,
                self.fits(),
                self.source.contents() == src,
                src.len() <= u64::MAX,
                so == self.source_offset,
                self.source_offset == old(self).source_offset,
                self.sector_count == old(self).sector_count,
                self.input_sector_size == old(self).input_sector_size,
                self.output_offset == old(self).output_offset,
                self.output_sector_size == old(self).output_sector_size,
                src == old(self).source.contents(),
                self.source.complete() == old(self).source.complete(),
                ins == self.input_sector_size,
                oo == self.output_offset,
                outs == self.output_sector_size,
                contents == spec_interleaved(src, so as int, self.sector_count as int, ins as int, oo as int, outs as int),
                buffer@.len() == before.len(),
                before == old(buffer)@,
                buffer@.subrange(0, written as int) == contents.subrange(offset as int, offset + written),
                buffer@.subrange(written as int, buffer@.len() as int) == before.subrange(written as int, before.len() as int),
            ensures
                written <= requested,
                old(self).source.complete() ==> written == requested,
                buffer@.len() == before.len(),
                buffer@.subrange(0, written as int) == contents.subrange(offset as int, offset + written),
                buffer@.subrange(written as int, buffer@.len() as int) == before.subrange(written as int, before.len() as int),
            decreases requested - written,
        {
            let logical = offset + written as u64;
            let sector = logical / outs;
            let within = logical % outs;
            proof {
                lemma_sector_bounds(logical as int, outs as int, self.sector_count as int, ins as int, oo as int);
                assert(sector * ins <= self.sector_count * ins) by (nonlinear_arith)
                    requires
                        sector < self.sector_count,
                {
                }
                assert(sector * ins + ins <= self.sector_count * ins) by (nonlinear_arith)
                    requires
                        sector < self.sector_count,
                {
                }
            }
            let room = outs - within;
            let count: usize = if ((requested - written) as u64) < room { requested - written } else { room as usize };
            let source_offset = so + sector * ins + oo + within;
            let ghost mid = buffer@;
            let (_, rest) = buffer.split_at_mut(written);
            let (chunk, _) = rest.split_at_mut(count);
            let ghost chunk_before = chunk@;
            let result = self.source.read_at(source_offset, chunk);
            proof {
                assert(buffer@.len() == mid.len());
            }
            let read = match result {
                Ok(n) => n,
                Err(e) => {
                    return Err(e);
                },
            };
            proof {
                assert(buffer@.len() == mid.len());
                assert forall|j: int| 0 <= j < read implies #[trigger] buffer@[written + j] == contents[offset + written + j] by {
                    lemma_within_sector(logical as int, j, outs as int);
                    assert(buffer@[written + j] == chunk@[j]);
                    assert(chunk@.subrange(0, read as int)[j] == src.subrange(source_offset as int, source_offset + read)[j]);
                }
                assert forall|j: int| 0 <= j < written implies buffer@[j] == mid[j] by {
                }
                assert forall|j: int| written + read <= j < buffer@.len() implies buffer@[j] == mid[j] by {
                    if j < written + count {
                        assert(chunk@.subrange(read as int, chunk@.len() as int)[j - written - read]
                            == chunk_before.subrange(read as int, chunk_before.len() as int)[j - written - read]);
                    }
                }
                assert(buffer@.subrange(0, written + read) =~= contents.subrange(offset as int, offset + written + read)) by {
                    assert forall|j: int| 0 <= j < written + read implies #[trigger] buffer@.subrange(0, written + read)[j]
                        == contents.subrange(offset as int, offset + written + read)[j] by {
                        if j < written {
                            assert(mid.subrange(0, written as int)[j] == contents.subrange(offset as int, offset + written)[j]);
                        } else {
                            assert(buffer@[written + (j - written)] == contents[offset + written + (j - written)]);
                        }
                    }
                }
                assert(buffer@.subrange(written + read, buffer@.len() as int) =~= before.subrange(written + read, before.len() as int)) by {
                    assert forall|j: int| 0 <= j < buffer@.len() - (written + read) implies #[trigger] buffer@.subrange(written + read, buffer@.len() as int)[j]
                        == before.subrange(written + read, before.len() as int)[j] by {
                        assert(buffer@[written + read + j] == mid[written + read + j]);
                        assert(mid.subrange(written as int, mid.len() as int)[read + j] == before.subrange(written as int, before.len() as int)[read + j]);
                    }
                }
            }
            written = written + read;
            if read < count {
                break;
            }
        }
        proof {
            assert(read_ok(contents, offset as int, before, buffer@, written as int));
        }
        Ok(written)
    }
}

} // verus!
