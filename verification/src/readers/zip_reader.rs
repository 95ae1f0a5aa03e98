//! Where a read of one ZIP entry is served from: a stored entry is read in place
//! in the archive file, a compressed one is decompressed from its start.
use vstd::prelude::*;

verus! {

/// What a read at an offset of a ZIP entry asks of the archive.
#[derive(Debug, PartialEq, Eq, Structural)]
pub enum ZipReadPlan {
    /// Nothing is read: the offset is at or past the end of the entry, or the buffer is empty.
    Nothing,
    /// The entry is stored: read the archive file from `file_offset` on.
    InPlace { file_offset: u64 },
    /// The entry is compressed: decompress it, discard `skip` bytes, then read.
    Decompress { skip: u64 },
}

/// The plan for reading into a buffer of `buffer_len` bytes at `offset` of an entry of
/// `size` bytes whose data starts at `data_start` in the archive.
pub open spec fn zip_read_plan(offset: u64, buffer_len: usize, size: u64, is_stored: bool, data_start: u64) -> ZipReadPlan {
    if offset >= size || buffer_len == 0 {
        ZipReadPlan::Nothing
    } else if is_stored {
        ZipReadPlan::InPlace { file_offset: (data_start + offset) as u64 }
    } else {
        ZipReadPlan::Decompress { skip: offset }
    }
}

/// Decides how a read of `buffer_len` bytes at `offset` of a ZIP entry is served.
/// A stored entry's data position plus the offset must fit in a `u64`.
pub fn plan_zip_read(offset: u64, buffer_len: usize, size: u64, is_stored: bool, data_start: u64) -> (r: ZipReadPlan)
    requires
        offset < size && buffer_len > 0 && is_stored ==> data_start + offset <= u64::MAX,
    ensures
        r == zip_read_plan(offset, buffer_len, size, is_stored, data_start),
{
    if offset >= size || buffer_len == 0 {
        ZipReadPlan::Nothing
    } else if is_stored {
        ZipReadPlan::InPlace { file_offset: data_start + offset }
    } else {
        ZipReadPlan::Decompress { skip: offset }
    }
}

} // verus!
