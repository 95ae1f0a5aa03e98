//! Random-access readers over in-memory data, byte ranges, interleaved
//! sectors, raw CD sectors and compressed hunk streams, and the read plan
//! for entries of ZIP archives.
pub mod inline_reader;
pub mod range_reader;
pub mod interleaved_sector_reader;
pub mod raw_cd_sector_reader;
pub mod chd_reader;
pub mod zip_reader;
