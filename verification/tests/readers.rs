use std::sync::atomic::AtomicUsize;
use std::sync::Arc;

use retromount::model::error::IoError;
use retromount::model::reader::Reader;
use retromount::readers::chd_reader::{ChdReader, HunkSource};
use retromount::readers::inline_reader::InlineReader;
use retromount::readers::interleaved_sector_reader::InterleavedSectorReader;
use retromount::readers::range_reader::RangeReader;
use retromount::readers::raw_cd_sector_reader::{RawCdDataMode, RawCdSectorReader};
use retromount::readers::zip_reader::{plan_zip_read, ZipReadPlan};

const RAW_SECTOR_SIZE: usize = 2352;
const LOGICAL_SECTOR_SIZE: usize = 2048;
const MODE1_USER_OFFSET: usize = 16;
const MODE2_USER_OFFSET: usize = 24;
const CD_SYNC: [u8; 12] = [
    0x00, 0xff, 0xff, 0xff, 0xff, 0xff, 0xff, 0xff, 0xff, 0xff, 0xff, 0x00,
];

#[test]
fn reads_inline_bytes() {
    let mut reader = InlineReader::new(b"abcdef".to_vec());

    let mut buf = vec![0; 3];
    let bytes = reader.read_at(2, &mut buf).unwrap();

    assert_eq!(bytes, 3);
    assert_eq!(&buf, b"cde");
}

#[test]
fn returns_zero_when_offset_is_past_end() {
    let mut reader = InlineReader::new(b"abc".to_vec());

    let mut buf = vec![0; 3];
    let bytes = reader.read_at(10, &mut buf).unwrap();

    assert_eq!(bytes, 0);
}

#[test]
fn inline_read_stops_at_the_end_and_leaves_the_rest_of_the_buffer() {
    let mut reader = InlineReader::new(b"abc".to_vec());
    let mut buf = vec![b'-'; 4];
    assert_eq!(reader.read_at(1, &mut buf).unwrap(), 2);
    assert_eq!(&buf, b"bc--");
    assert_eq!(reader.len(), 3);
}

#[test]
fn projects_unaligned_reads_across_interleaved_sectors() {
    let source = InlineReader::new(b"abcdXYefghZZ".to_vec());
    let mut reader = InterleavedSectorReader::new(Box::new(source), 0, 2, 6, 0, 4).unwrap();
    let mut output = [0; 6];

    assert_eq!(reader.read_at(2, &mut output).unwrap(), 6);
    assert_eq!(&output, b"cdefgh");
    assert_eq!(reader.len(), 8);
}

#[test]
fn interleaved_reader_refuses_sectors_beyond_the_source() {
    let source = InlineReader::new(b"abcdXYefgh".to_vec());
    assert!(InterleavedSectorReader::new(source, 0, 2, 6, 0, 4).is_err());
}

#[test]
fn exposes_only_the_selected_source_range() {
    let mut reader =
        RangeReader::new(Box::new(InlineReader::new(b"0123456789".to_vec())), 3, 4).unwrap();
    let mut output = [0; 8];

    assert_eq!(reader.read_at(1, &mut output).unwrap(), 3);
    assert_eq!(&output[..3], b"456");
    assert_eq!(reader.len(), 4);
    assert_eq!(reader.read_at(4, &mut output).unwrap(), 0);
}

#[test]
fn range_reader_refuses_a_range_past_the_source() {
    assert!(RangeReader::new(InlineReader::new(b"0123".to_vec()), 2, 3).is_err());
}

fn raw_sector(mode: RawCdDataMode, fill: u8) -> Vec<u8> {
    let mut sector = vec![0; RAW_SECTOR_SIZE];
    sector[..CD_SYNC.len()].copy_from_slice(&CD_SYNC);

    match mode {
        RawCdDataMode::Mode1 => {
            sector[15] = 1;
            sector[MODE1_USER_OFFSET..MODE1_USER_OFFSET + LOGICAL_SECTOR_SIZE].fill(fill);
        }
        RawCdDataMode::Mode2Form1 => {
            sector[15] = 2;
            sector[16..20].copy_from_slice(&[1, 2, 0, 4]);
            sector[20..24].copy_from_slice(&[1, 2, 0, 4]);
            sector[MODE2_USER_OFFSET..MODE2_USER_OFFSET + LOGICAL_SECTOR_SIZE].fill(fill);
        }
    }

    sector
}

#[test]
fn maps_unaligned_reads_across_mode1_sector_boundaries() {
    let mut encoded = raw_sector(RawCdDataMode::Mode1, 0x11);
    encoded.extend(raw_sector(RawCdDataMode::Mode1, 0x22));
    let mut reader =
        RawCdSectorReader::new(Box::new(InlineReader::new(encoded)), 0, 2, RawCdDataMode::Mode1)
            .unwrap();
    let mut output = [0; 8];

    assert_eq!(reader.read_at(2044, &mut output).unwrap(), 8);
    assert_eq!(&output, &[0x11, 0x11, 0x11, 0x11, 0x22, 0x22, 0x22, 0x22]);
    assert_eq!(reader.len(), 4096);
}

#[test]
fn maps_mode2_form1_user_data() {
    let encoded = raw_sector(RawCdDataMode::Mode2Form1, 0x5a);
    let mut reader = RawCdSectorReader::new(
        Box::new(InlineReader::new(encoded)),
        0,
        1,
        RawCdDataMode::Mode2Form1,
    )
    .unwrap();
    let mut output = [0; 4];

    assert_eq!(reader.read_at(7, &mut output).unwrap(), 4);
    assert_eq!(output, [0x5a; 4]);
}

#[test]
fn rejects_mode2_form2_sectors() {
    let mut encoded = raw_sector(RawCdDataMode::Mode2Form1, 0x5a);
    encoded[18] |= 0x20;
    encoded[22] |= 0x20;
    let mut reader = RawCdSectorReader::new(
        Box::new(InlineReader::new(encoded)),
        0,
        1,
        RawCdDataMode::Mode2Form1,
    )
    .unwrap();

    let error = reader.read_at(0, &mut [0; 1]).unwrap_err();
    assert_eq!(error.kind(), std::io::ErrorKind::InvalidData);
    assert!(error.to_string().contains("Form 2"));
}

#[test]
fn rejects_invalid_sync_and_truncated_ranges() {
    let invalid = vec![0; RAW_SECTOR_SIZE];
    let mut reader =
        RawCdSectorReader::new(Box::new(InlineReader::new(invalid)), 0, 1, RawCdDataMode::Mode1)
            .unwrap();
    assert!(reader.read_at(0, &mut [0; 1]).is_err());

    let error = match RawCdSectorReader::new(
        Box::new(InlineReader::new(vec![0; 100])),
        0,
        1,
        RawCdDataMode::Mode1,
    ) {
        Ok(_) => panic!("truncated raw track should fail"),
        Err(error) => error,
    };
    assert_eq!(error.kind(), std::io::ErrorKind::UnexpectedEof);
}

struct FakeHunkSource {
    bytes: Vec<u8>,
    hunk_size: u32,
    logical_bytes: u64,
    reads: Arc<AtomicUsize>,
}

impl HunkSource for FakeHunkSource {
    fn hunk_size(&self) -> u32 {
        self.hunk_size
    }

    fn logical_bytes(&self) -> u64 {
        self.logical_bytes
    }

    fn read_hunk(&mut self, index: u32, output: &mut [u8]) -> Result<(), IoError> {
        self.reads.fetch_add(1, std::sync::atomic::Ordering::SeqCst);
        let start = index as usize * self.hunk_size as usize;
        let available = self.bytes.len().saturating_sub(start).min(output.len());
        output[..available].copy_from_slice(&self.bytes[start..start + available]);
        Ok(())
    }
}

fn chd_reader(cache_capacity: usize, reads: Arc<AtomicUsize>) -> ChdReader<FakeHunkSource> {
    ChdReader::from_source(
        FakeHunkSource {
            bytes: (0..24).collect(),
            hunk_size: 8,
            logical_bytes: 20,
            reads,
        },
        cache_capacity,
    )
    .unwrap()
}

#[test]
fn reads_across_hunk_boundaries_and_clamps_at_logical_end() {
    let mut reader = chd_reader(2, Arc::new(AtomicUsize::new(0)));
    let mut across = [0; 10];
    let mut tail = [0; 8];

    assert_eq!(reader.read_at(6, &mut across).unwrap(), 10);
    assert_eq!(across, [6, 7, 8, 9, 10, 11, 12, 13, 14, 15]);
    assert_eq!(reader.read_at(18, &mut tail).unwrap(), 2);
    assert_eq!(&tail[..2], &[18, 19]);
}

#[test]
fn reuses_cached_hunks_and_evicts_to_the_configured_bound() {
    let reads = Arc::new(AtomicUsize::new(0));
    let mut reader = chd_reader(1, reads.clone());
    let mut byte = [0; 1];

    reader.read_at(0, &mut byte).unwrap();
    reader.read_at(1, &mut byte).unwrap();
    assert_eq!(reads.load(std::sync::atomic::Ordering::SeqCst), 1);

    reader.read_at(8, &mut byte).unwrap();
    reader.read_at(0, &mut byte).unwrap();
    assert_eq!(reads.load(std::sync::atomic::Ordering::SeqCst), 3);
    assert_eq!(reader.cached_hunks().len(), 1);
}

struct FailingHunkSource;

impl HunkSource for FailingHunkSource {
    fn hunk_size(&self) -> u32 {
        8
    }

    fn logical_bytes(&self) -> u64 {
        8
    }

    fn read_hunk(&mut self, index: u32, _output: &mut [u8]) -> Result<(), IoError> {
        Err(IoError::new(
            std::io::ErrorKind::InvalidData,
            format!("failed to decompress CHD hunk {index}"),
        ))
    }
}

#[test]
fn propagates_hunk_decode_failures_without_partial_success() {
    let mut reader = ChdReader::from_source(FailingHunkSource, 1).unwrap();
    let mut output = [0; 4];
    let error = reader.read_at(0, &mut output).unwrap_err();

    assert_eq!(error.kind(), std::io::ErrorKind::InvalidData);
    assert!(error.to_string().contains("decompress"));
    assert!(reader.cached_hunks().is_empty());
}

#[test]
fn chd_reader_keeps_the_most_recently_used_hunks_oldest_first() {
    let mut reader = chd_reader(2, Arc::new(AtomicUsize::new(0)));
    let mut byte = [0; 1];
    reader.read_at(0, &mut byte).unwrap();
    reader.read_at(8, &mut byte).unwrap();
    reader.read_at(1, &mut byte).unwrap();
    assert_eq!(reader.cached_hunks(), vec![1, 0]);
    reader.read_at(16, &mut byte).unwrap();
    assert_eq!(reader.cached_hunks(), vec![0, 2]);
    assert_eq!(reader.len(), 20);
}

#[test]
fn chd_reader_requires_a_non_zero_cache() {
    let error = match ChdReader::from_source(FailingHunkSource, 0) {
        Ok(_) => panic!("expected invalid input"),
        Err(error) => error,
    };
    assert_eq!(error.kind(), std::io::ErrorKind::InvalidInput);
}

#[test]
fn stored_zip_entries_are_read_in_place_after_their_data_start() {
    assert_eq!(plan_zip_read(5, 5, 26, true, 40), ZipReadPlan::InPlace { file_offset: 45 });
}

#[test]
fn compressed_zip_entries_discard_up_to_the_offset() {
    assert_eq!(plan_zip_read(5, 5, 26, false, 40), ZipReadPlan::Decompress { skip: 5 });
}

#[test]
fn zip_reads_past_the_end_or_into_empty_buffers_read_nothing() {
    assert_eq!(plan_zip_read(26, 5, 26, true, 40), ZipReadPlan::Nothing);
    assert_eq!(plan_zip_read(0, 0, 26, false, 40), ZipReadPlan::Nothing);
}
