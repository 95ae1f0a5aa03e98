//! A reader exposing the 2048-byte user data of raw 2352-byte CD data sectors,
//! validating each sector's header as it is read.
use vstd::prelude::*;

use crate::model::error::IoError;
use crate::model::reader::{read_ok, Reader};
use crate::readers::interleaved_sector_reader::spec_interleaved;
use crate::text::{concat3, decimal_string};

verus! {

pub open spec fn raw_sector_size() -> int {
    2352
}

pub open spec fn logical_sector_size() -> int {
    2048
}

#[derive(Debug, Clone, Copy, PartialEq, Eq, Structural)]
pub enum RawCdDataMode {
    Mode1,
    Mode2Form1,
}

#[derive(Debug, Clone, Copy, PartialEq, Eq, Structural)]
pub enum RawCdSectorKind {
    Mode1,
    Mode2Form1,
    Mode2Form2,
}

/// Offset of the user data within a raw sector of the given mode.
pub open spec fn spec_user_offset(mode: RawCdDataMode) -> int {
    match mode {
        RawCdDataMode::Mode1 => 16,
        RawCdDataMode::Mode2Form1 => 24,
    }
}

/// The sync pattern that opens every raw data sector.
pub open spec fn spec_sync() -> Seq<u8> {
    seq![0x00u8, 0xff, 0xff, 0xff, 0xff, 0xff, 0xff, 0xff, 0xff, 0xff, 0xff, 0x00]
}

/// The kind of a raw sector, or `None` when its header is invalid.
pub open spec fn spec_sector_kind(s: Seq<u8>) -> Option<RawCdSectorKind> {
    if s.subrange(0, 12) != spec_sync() {
        None
    } else if s[15] == 1 {
        Some(RawCdSectorKind::Mode1)
    } else if s[15] == 2 {
        if s.subrange(16, 20) != s.subrange(20, 24) {
            None
        } else if s[18] & 0x20 != 0 {
            Some(RawCdSectorKind::Mode2Form2)
        } else {
            Some(RawCdSectorKind::Mode2Form1)
        }
    } else {
        None
    }
}

/// Whether a sector of `kind` can be read in `mode`.
pub open spec fn kind_matches(mode: RawCdDataMode, kind: RawCdSectorKind) -> bool {
    (mode == RawCdDataMode::Mode1 && kind == RawCdSectorKind::Mode1) || (mode == RawCdDataMode::Mode2Form1 && kind
        == RawCdSectorKind::Mode2Form1)
}

/// The raw bytes of sector `index`.
pub open spec fn spec_raw_sector(source: Seq<u8>, source_offset: int, index: int) -> Seq<u8> {
    source.subrange(source_offset + index * 2352, source_offset + index * 2352 + 2352)
}

/// The user data a raw track exposes.
pub open spec fn spec_user_data(source: Seq<u8>, source_offset: int, sector_count: int, mode: RawCdDataMode) -> Seq<u8> {
    spec_interleaved(source, source_offset, sector_count, 2352, spec_user_offset(mode), 2048)
}

/// Whether raw sector `index` can be read in `mode`: its header is valid and its kind
/// is the one the mode expects.
pub open spec fn raw_sector_readable(source: Seq<u8>, source_offset: int, index: int, mode: RawCdDataMode) -> bool {
    spec_sector_kind(spec_raw_sector(source, source_offset, index)) matches Some(k) && kind_matches(mode, k)
}

pub struct RawCdSectorReader<R: Reader> {
    source: R,
    source_offset: u64,
    sector_count: u64,
    mode: RawCdDataMode,
}

fn invalid_sector(sector_index: u64, message: &str) -> (r: IoError)
    ensures
        r.kind == std::io::ErrorKind::InvalidData,
{
    let mut text = concat3("raw CD sector ", decimal_string(sector_index).as_str(), ": ");
    text.append(message);
    IoError::new(std::io::ErrorKind::InvalidData, text)
}

/// Classifies a raw sector by its sync pattern, mode byte and subheader.
pub fn validate_sector(sector: &[u8], sector_index: u64) -> (r: Result<RawCdSectorKind, IoError>)
    requires
        sector@.len() == 2352,
    ensures
        r matches Ok(k) ==> spec_sector_kind(sector@) == Some(k),
        r is Err ==> spec_sector_kind(sector@) is None,
        r matches Err(e) ==> e.kind == std::io::ErrorKind::InvalidData,
{
    let sync: [u8; 12] = [0x00, 0xff, 0xff, 0xff, 0xff, 0xff, 0xff, 0xff, 0xff, 0xff, 0xff, 0x00];
    assert(sync@ == spec_sync());
    let mut i: usize = 0;
    while i < 12
        invariant
            i <= 12,
            sector@.len() == 2352,
            sync@ == spec_sync(),
            forall|j: int| 0 <= j < i ==> sector@[j] == sync@[j],
        decreases 12 - i,
    {
        if sector[i] != sync[i] {
            proof {
                assert(sector@.subrange(0, 12)[i as int] != spec_sync()[i as int]);
            }
            return Err(invalid_sector(sector_index, "invalid sync pattern"));
        }
        i = i + 1;
    }
    assert(sector@.subrange(0, 12) =~= spec_sync());
    if sector[15] == 1 {
        return Ok(RawCdSectorKind::Mode1);
    }
    if sector[15] == 2 {
        let mut j: usize = 0;
        while j < 4
            invariant
                j <= 4,
                sector@.len() == 2352,
                sector@[15] == 2,
                sector@.subrange(0, 12) == spec_sync(),
                forall|k: int| 16 <= k < 16 + j ==> #[trigger] sector@[k] == sector@[k + 4],
            decreases 4 - j,
        {
            if sector[16 + j] != sector[20 + j] {
                proof {
                    assert(sector@.subrange(16, 20)[j as int] != sector@.subrange(20, 24)[j as int]);
                }
                return Err(invalid_sector(sector_index, "MODE2 subheader copies do not match"));
            }
            j = j + 1;
        }
        assert forall|k: int| 0 <= k < 4 implies #[trigger] sector@.subrange(16, 20)[k] == sector@.subrange(20, 24)[k] by {
            assert(sector@[16 + k] == sector@[16 + k + 4]);
        }
        assert(sector@.subrange(16, 20) =~= sector@.subrange(20, 24));
        if sector[18] & 0x20 != 0 {
            return Ok(RawCdSectorKind::Mode2Form2);
        }
        return Ok(RawCdSectorKind::Mode2Form1);
    }
    Err(invalid_sector(sector_index, "unknown sector mode"))
}

/// Fills `buffer` from `offset`, failing when the reader stops short.
pub fn read_exact_at<R: Reader>(reader: &mut R, offset: u64, buffer: &mut [u8]) -> (r: Result<(), IoError>)
    requires
        offset + old(buffer)@.len() <= old(reader).contents().len(),
    ensures
        final(reader).contents() == old(reader).contents(),
        final(reader).complete() == old(reader).complete(),
        final(buffer)@.len() == old(buffer)@.len(),
        r is Ok ==> final(buffer)@ == old(reader).contents().subrange(offset as int, offset + old(buffer)@.len()),
        old(reader).complete() ==> r is Ok,
{
    let ghost contents = reader.contents();
    let _len = reader.len();
    let mut read: usize = 0;
    while read < buffer.len()
        invariant
            read <= buffer@.len(),
            buffer@.len() == old(buffer)@.len(),
            reader.contents() == contents,
            contents == old(reader).contents(),
            reader.complete() == old(reader).complete(),
            offset + buffer@.len() <= contents.len(),
            contents.len() <= u64::MAX,
            buffer@.subrange(0, read as int) == contents.subrange(offset as int, offset + read),
        decreases buffer@.len() - read,
    {
        let ghost mid = buffer@;
        let (_, rest) = buffer.split_at_mut(read);
        let result = reader.read_at(offset + read as u64, rest);
        proof {
            assert(buffer@.len() == mid.len());
        }
        let count = match result {
            Ok(count) => count,
            Err(e) => {
                return Err(e);
            },
        };
        if count == 0 {
            return Err(IoError::new(std::io::ErrorKind::UnexpectedEof, String::from_str("raw CD sector is truncated")));
        }
        proof {
            assert forall|j: int| 0 <= j < read + count implies #[trigger] buffer@.subrange(0, read + count)[j]
                == contents.subrange(offset as int, offset + read + count)[j] by {
                if j < read {
                    assert(buffer@[j] == mid[j]);
                    assert(mid.subrange(0, read as int)[j] == contents.subrange(offset as int, offset + read)[j]);
                } else {
                    assert(buffer@[j] == rest@[j - read]);
                    assert(rest@.subrange(0, count as int)[j - read] == contents.subrange(offset + read, offset + read + count)[j - read]);
                }
            }
            assert(buffer@.subrange(0, read + count) =~= contents.subrange(offset as int, offset + read + count));
        }
        read = read + count;
    }
    assert(buffer@.subrange(0, read as int) =~= buffer@);
    Ok(())
}

/// Whether `sector_count` raw sectors from `source_offset` fit in a source of `len` bytes.
pub open spec fn raw_fits(len: int, source_offset: int, sector_count: int) -> bool {
    source_offset + sector_count * 2352 <= len
}

fn user_offset(mode: RawCdDataMode) -> (r: usize)
    ensures
        r == spec_user_offset(mode),
{
    match mode {
        RawCdDataMode::Mode1 => 16,
        RawCdDataMode::Mode2Form1 => 24,
    }
}

/// Checks that `sector_count` raw sectors from `source_offset` fit in `source_len`;
/// returns the error of an overflowing or overlong range.
fn check_raw_range(source_len: u64, source_offset: u64, sector_count: u64) -> (r: Result<(), IoError>)
    ensures
        (r is Ok) == raw_fits(source_len as int, source_offset as int, sector_count as int),
        r matches Err(e) ==> e.kind == (if source_offset + sector_count * 2352 > u64::MAX {
            std::io::ErrorKind::InvalidInput
        } else {
            std::io::ErrorKind::UnexpectedEof
        }),
{
    let length = match sector_count.checked_mul(2352) {
        Some(length) => length,
        None => {
            return Err(IoError::new(std::io::ErrorKind::InvalidInput, String::from_str("raw CD range overflow")));
        },
    };
    let end = match source_offset.checked_add(length) {
        Some(end) => end,
        None => {
            return Err(IoError::new(std::io::ErrorKind::InvalidInput, String::from_str("raw CD range overflow")));
        },
    };
    if end > source_len {
        return Err(IoError::new(std::io::ErrorKind::UnexpectedEof, String::from_str("raw CD track extends past its source")));
    }
    Ok(())
}

fn zeroed_sector() -> (r: Vec<u8>)
    ensures
        r@.len() == 2352,
{
    let mut v: Vec<u8> = Vec::new();
    let mut i: usize = 0;
    while i < 2352
        invariant
            i <= 2352,
            v@.len() == i,
        decreases 2352 - i,
    {
        v.push(0);
        i = i + 1;
    }
    v
}

impl<R: Reader> RawCdSectorReader<R> {
    /// Exposes the user data of `sector_count` raw sectors that start at `source_offset`.
    pub fn new(source: R, source_offset: u64, sector_count: u64, mode: RawCdDataMode) -> (r: Result<Self, IoError>)
        ensures
            (r is Ok) == raw_fits(source.contents().len() as int, source_offset as int, sector_count as int),
            r matches Ok(reader) ==> reader.contents() == spec_user_data(source.contents(), source_offset as int,
                sector_count as int, mode),
            r matches Ok(reader) ==> (reader.complete() <==> source.complete() && forall|i: int| 0 <= i < sector_count
                ==> #[trigger] raw_sector_readable(source.contents(), source_offset as int, i, mode)),
            r matches Err(e) ==> e.kind == (if source_offset + sector_count * 2352 > u64::MAX {
                std::io::ErrorKind::InvalidInput
            } else {
                std::io::ErrorKind::UnexpectedEof
            }),
    {
        let source_len = source.len();
        match check_raw_range(source_len, source_offset, sector_count) {
            Ok(()) => {
                let ghost src = source.contents();
                let ghost source_complete = source.complete();
                let reader = RawCdSectorReader { source, source_offset, sector_count, mode };
                proof {
                    assert(reader.source.complete() == source_complete);
                    assert(reader.source.contents() == src);
                    assert(reader.complete() == (reader.source.complete() && forall|i: int| 0 <= i < reader.sector_count
                        ==> #[trigger] raw_sector_readable(reader.source.contents(), reader.source_offset as int, i, reader.mode)));
                }
                Ok(reader)
            },
            Err(e) => Err(e),
        }
    }

    spec fn fits(&self) -> bool {
        raw_fits(self.source.contents().len() as int, self.source_offset as int, self.sector_count as int)
    }

    fn check_fits(&self) -> (r: bool)
        ensures
            r == self.fits(),
            self.source.contents().len() <= u64::MAX,
    {
        let source_len = self.source.len();
        check_raw_range(source_len, self.source_offset, self.sector_count).is_ok()
    }

    /// Whether reads of the source succeed and deliver everything asked for.
    pub closed spec fn source_complete(&self) -> bool {
        self.source.complete()
    }

    /// Whether raw sector `index` of the track has this reader's mode.
    pub closed spec fn sector_readable(&self, index: int) -> bool {
        raw_sector_readable(self.source.contents(), self.source_offset as int, index, self.mode)
    }

    /// Reads raw sector `sector_index` into `sector` and checks it has this reader's mode.
    fn read_sector(&mut self, sector_index: u64, sector: &mut Vec<u8>) -> (r: Result<(), IoError>)
        requires
            old(self).fits(),
            sector_index < old(self).sector_count,
            old(sector)@.len() == 2352,
        ensures
            final(self).contents() == old(self).contents(),
            final(self).source.contents() == old(self).source.contents(),
            final(self).source_offset == old(self).source_offset,
            final(self).sector_count == old(self).sector_count,
            final(self).mode == old(self).mode,
            final(self).source.complete() == old(self).source.complete(),
            final(sector)@.len() == 2352,
            old(self).source.complete() && raw_sector_readable(old(self).source.contents(), old(self).source_offset as int,
                sector_index as int, old(self).mode) ==> r is Ok,
            old(self).source.complete() && !raw_sector_readable(old(self).source.contents(), old(self).source_offset as int,
                sector_index as int, old(self).mode) ==> (r matches Err(e) && e.kind == std::io::ErrorKind::InvalidData),
            r is Ok ==> final(sector)@ == spec_raw_sector(old(self).source.contents(), old(self).source_offset as int,
                sector_index as int),
            r is Ok ==> (spec_sector_kind(final(sector)@) matches Some(k) && kind_matches(old(self).mode, k)),
    {
        let _len = self.source.len();
        proof {
            assert(sector_index * 2352 + 2352 <= self.sector_count * 2352) by (nonlinear_arith)
                requires
                    sector_index < self.sector_count,
            {
            }
        }
        let offset = self.source_offset + sector_index * 2352;
        match read_exact_at(&mut self.source, offset, sector.as_mut_slice()) {
            Ok(()) => {},
            Err(e) => {
                return Err(e);
            },
        }
        let kind = match validate_sector(sector.as_slice(), sector_index) {
            Ok(kind) => kind,
            Err(e) => {
                return Err(e);
            },
        };
        match (self.mode, kind) {
            (RawCdDataMode::Mode1, RawCdSectorKind::Mode1) => Ok(()),
            (RawCdDataMode::Mode2Form1, RawCdSectorKind::Mode2Form1) => Ok(()),
            (RawCdDataMode::Mode1, _) => Err(invalid_sector(sector_index, "expected MODE1 sector")),
            (RawCdDataMode::Mode2Form1, RawCdSectorKind::Mode2Form2) => Err(invalid_sector(
                sector_index,
                "MODE2 Form 2 sector has 2324 user bytes and is not ISO-compatible",
            )),
            (RawCdDataMode::Mode2Form1, _) => Err(invalid_sector(sector_index, "expected MODE2 sector")),
        }
    }
}

impl<R: Reader> Reader for RawCdSectorReader<R> {
    closed spec fn contents(&self) -> Seq<u8> {
        if self.fits() {
            spec_user_data(self.source.contents(), self.source_offset as int, self.sector_count as int, self.mode)
        } else {
            Seq::empty()
        }
    }

    /// The track reads completely when its source does and every sector has the reader's mode.
    closed spec fn complete(&self) -> bool {
        &&& self.source.complete()
        &&& forall|i: int| 0 <= i < self.sector_count ==> #[trigger] raw_sector_readable(self.source.contents(),
            self.source_offset as int, i, self.mode)
    }

    fn len(&self) -> (r: u64) {
        if self.check_fits() {
            proof {
                assert(self.sector_count * 2048 <= self.sector_count * 2352) by (nonlinear_arith);
            }
            self.sector_count * 2048
        } else {
            0
        }
    }

    /// A read whose first sector does not have the reader's mode fails with `InvalidData`
    /// (when the source itself reads completely).
    fn read_at(&mut self, offset: u64, buffer: &mut [u8]) -> (r: Result<usize, IoError>)
        ensures
            old(self).source_complete() && old(buffer)@.len() > 0 && offset < old(self).contents().len()
                && !old(self).sector_readable((offset / 2048) as int) ==> (r matches Err(e) && e.kind == std::io::ErrorKind::InvalidData),
    {
        let _source_len = self.source.len();
        let length = self.len();
        if buffer.len() == 0 || offset >= length {
            proof {
                assert(buffer@.subrange(0, buffer@.len() as int) =~= buffer@);
            }
            return Ok(0);
        }
        let ghost contents = self.contents();
        let ghost src = self.source.contents();
        let ghost before = buffer@;
        let read_len: usize = if (buffer.len() as u64) < length - offset { buffer.len() } else { (length - offset) as usize };
        let uo = user_offset(self.mode);
        let mut sector = zeroed_sector();
        let mut written: usize = 0;
        while written < read_len
            invariant
                written <= read_len <= buffer@.len(),
                offset + read_len <= length,
                length as int == contents.len(),
                contents.len() > 0,
                self.fits(),
                self.source.contents() == src,
                src.len() <= u64::MAX,
                self.source_offset == old(self).source_offset,
                self.sector_count == old(self).sector_count,
                self.mode == old(self).mode,
                src == old(self).source.contents(),
                self.source.complete() == old(self).source.complete(),
                old(self).source_complete() && !old(self).sector_readable((offset / 2048) as int) ==> written == 0,
                uo == spec_user_offset(self.mode),
                sector@.len() == 2352,
                contents == spec_user_data(src, self.source_offset as int, self.sector_count as int, self.mode),
                buffer@.len() == before.len(),
                before == old(buffer)@,
                buffer@.subrange(0, written as int) == contents.subrange(offset as int, offset + written),
                buffer@.subrange(written as int, buffer@.len() as int) == before.subrange(written as int, before.len() as int),
            decreases read_len - written,
        {
            let logical = offset + written as u64;
            let index = logical / 2048;
            let within = (logical % 2048) as usize;
            proof {
                crate::readers::interleaved_sector_reader::lemma_sector_bounds(
                    logical as int, 2048, self.sector_count as int, 2352, uo as int);
            }
            match self.read_sector(index, &mut sector) {
                Ok(()) => {},
                Err(e) => {
                    return Err(e);
                },
            }
            let available = 2048 - within;
            let count = if available < read_len - written { available } else { read_len - written };
            let ghost mid = buffer@;
            let mut j: usize = 0;
            while j < count
                invariant
                    j <= count,
                    within + count <= 2048,
                    written + count <= read_len <= buffer@.len(),
                    uo + 2048 <= 2352,
                    sector@.len() == 2352,
                    buffer@.len() == mid.len(),
                    forall|k: int| 0 <= k < written ==> buffer@[k] == mid[k],
                    forall|k: int| written + j <= k < buffer@.len() ==> buffer@[k] == mid[k],
                    forall|k: int| 0 <= k < j ==> #[trigger] buffer@[written + k] == sector@[uo + within + k],
                decreases count - j,
            {
                buffer[written + j] = sector[uo + within + j];
                j = j + 1;
            }
            proof {
                assert forall|k: int| 0 <= k < count implies #[trigger] buffer@[written + k] == contents[offset + written + k] by {
                    crate::readers::interleaved_sector_reader::lemma_within_sector(logical as int, k, 2048);
                    assert(sector@[uo + within + k] == src[self.source_offset + index * 2352 + uo + within + k]);
                }
                assert forall|k: int| 0 <= k < written + count implies #[trigger] buffer@.subrange(0, written + count)[k]
                    == contents.subrange(offset as int, offset + written + count)[k] by {
                    if k < written {
                        assert(mid.subrange(0, written as int)[k] == contents.subrange(offset as int, offset + written)[k]);
                    } else {
                        assert(buffer@[written + (k - written)] == contents[offset + written + (k - written)]);
                    }
                }
                assert(buffer@.subrange(0, written + count) =~= contents.subrange(offset as int, offset + written + count));
                assert forall|k: int| 0 <= k < buffer@.len() - (written + count) implies #[trigger] buffer@.subrange(written + count, buffer@.len() as int)[k]
                    == before.subrange(written + count, before.len() as int)[k] by {
                    assert(mid.subrange(written as int, mid.len() as int)[count + k] == before.subrange(written as int, before.len() as int)[count + k]);
                }
                assert(buffer@.subrange(written + count, buffer@.len() as int) =~= before.subrange(written + count, before.len() as int));
            }
            written = written + count;
        }
        proof {
            assert(read_ok(contents, offset as int, before, buffer@, written as int));
        }
        Ok(written)
    }
}

/// Whether every sector of a raw track is valid for `mode`, allowing MODE2 Form 2 sectors
/// in `Mode2Form1` mode.
pub open spec fn track_sectors_valid(source: Seq<u8>, source_offset: int, count: int, mode: RawCdDataMode) -> bool {
    forall|i: int| 0 <= i < count ==> (spec_sector_kind(#[trigger] spec_raw_sector(source, source_offset, i)) matches Some(k)
        && (kind_matches(mode, k) || (mode == RawCdDataMode::Mode2Form1 && k == RawCdSectorKind::Mode2Form2)))
}

/// Whether a raw track holds a MODE2 Form 2 sector.
pub open spec fn track_has_form2(source: Seq<u8>, source_offset: int, count: int) -> bool {
    exists|i: int| 0 <= i < count && spec_sector_kind(#[trigger] spec_raw_sector(source, source_offset, i))
        == Some(RawCdSectorKind::Mode2Form2)
}

/// Checks every sector of a raw track; `Ok(true)` when the track's user data is
/// ISO-compatible, `Ok(false)` when a MODE2 track carries Form 2 sectors.
pub fn validate_raw_cd_track<R: Reader>(source: R, source_offset: u64, sector_count: u64, mode: RawCdDataMode) -> (r: Result<bool, IoError>)
    ensures
        !raw_fits(source.contents().len() as int, source_offset as int, sector_count as int) ==> (r matches Err(e)
            && e.kind == (if source_offset + sector_count * 2352 > u64::MAX {
            std::io::ErrorKind::InvalidInput
        } else {
            std::io::ErrorKind::UnexpectedEof
        })),
        r matches Ok(compatible) ==> track_sectors_valid(source.contents(), source_offset as int, sector_count as int, mode)
            && compatible == !track_has_form2(source.contents(), source_offset as int, sector_count as int),
        source.complete() && raw_fits(source.contents().len() as int, source_offset as int, sector_count as int) ==> if track_sectors_valid(
            source.contents(),
            source_offset as int,
            sector_count as int,
            mode,
        ) {
            r is Ok
        } else {
            r matches Err(e) && e.kind == std::io::ErrorKind::InvalidData
        },
{
    let ghost src = source.contents();
    let mut reader = source;
    let source_len = reader.len();
    match check_raw_range(source_len, source_offset, sector_count) {
        Ok(()) => {},
        Err(e) => {
            return Err(e);
        },
    }
    let mut sector = zeroed_sector();
    let mut iso_compatible = true;
    let mut index: u64 = 0;
    while index < sector_count
        invariant
            index <= sector_count,
            reader.contents() == src,
            src == source.contents(),
            raw_fits(src.len() as int, source_offset as int, sector_count as int),
            src.len() <= u64::MAX,
            sector@.len() == 2352,
            track_sectors_valid(src, source_offset as int, index as int, mode),
            iso_compatible == !track_has_form2(src, source_offset as int, index as int),
            reader.complete() == source.complete(),
        decreases sector_count - index,
    {
        proof {
            assert(index * 2352 + 2352 <= sector_count * 2352) by (nonlinear_arith)
                requires
                    index < sector_count,
            {
            }
        }
        match read_exact_at(&mut reader, source_offset + index * 2352, sector.as_mut_slice()) {
            Ok(()) => {},
            Err(e) => {
                return Err(e);
            },
        }
        let kind = match validate_sector(sector.as_slice(), index) {
            Ok(kind) => kind,
            Err(e) => {
                proof {
                    assert(sector@ == spec_raw_sector(src, source_offset as int, index as int));
                    assert(spec_sector_kind(spec_raw_sector(src, source_offset as int, index as int)) is None);
                    assert(!track_sectors_valid(src, source_offset as int, sector_count as int, mode));
                }
                return Err(e);
            },
        };
        let ghost raw = spec_raw_sector(src, source_offset as int, index as int);
        assert(sector@ == raw);
        match (mode, kind) {
            (RawCdDataMode::Mode1, RawCdSectorKind::Mode1) => {},
            (RawCdDataMode::Mode2Form1, RawCdSectorKind::Mode2Form1) => {},
            (RawCdDataMode::Mode2Form1, RawCdSectorKind::Mode2Form2) => {
                iso_compatible = false;
            },
            (RawCdDataMode::Mode1, _) => {
                proof {
                    assert(!track_sectors_valid(src, source_offset as int, sector_count as int, mode)) by {
                        assert(spec_sector_kind(spec_raw_sector(src, source_offset as int, index as int)) == Some(kind));
                    }
                }
                return Err(invalid_sector(index, "expected MODE1 sector"));
            },
            (RawCdDataMode::Mode2Form1, _) => {
                proof {
                    assert(!track_sectors_valid(src, source_offset as int, sector_count as int, mode)) by {
                        assert(spec_sector_kind(spec_raw_sector(src, source_offset as int, index as int)) == Some(kind));
                    }
                }
                return Err(invalid_sector(index, "expected MODE2 sector"));
            },
        }
        proof {
            assert forall|i: int| 0 <= i < index + 1 implies (spec_sector_kind(#[trigger] spec_raw_sector(src, source_offset as int, i)) matches Some(k)
                && (kind_matches(mode, k) || (mode == RawCdDataMode::Mode2Form1 && k == RawCdSectorKind::Mode2Form2))) by {
                if i < index {
                }
            }
            if kind == RawCdSectorKind::Mode2Form2 {
                assert(spec_sector_kind(spec_raw_sector(src, source_offset as int, index as int)) == Some(RawCdSectorKind::Mode2Form2));
            } else if !iso_compatible {
            } else {
                assert forall|i: int| 0 <= i < index + 1 implies spec_sector_kind(#[trigger] spec_raw_sector(src, source_offset as int, i))
                    != Some(RawCdSectorKind::Mode2Form2) by {
                    if i < index {
                    }
                }
            }
        }
        index = index + 1;
    }
    Ok(iso_compatible)
}

} // verus!
