//! Track-aware CD layouts.
use vstd::prelude::*;

use crate::model::reader::ReaderHandle;
use crate::model::source::SourceRef;

verus! {

#[derive(Debug, Clone, Copy, PartialEq, Eq, Structural)]
#[allow(non_camel_case_types)]
pub enum CdSectorFormat {
    Mode1_2048,
    Mode1_2352,
    Mode2_2352,
    Audio2352,
}

pub open spec fn spec_sector_size(format: CdSectorFormat) -> u64 {
    match format {
        CdSectorFormat::Mode1_2048 => 2048,
        _ => 2352,
    }
}

impl CdSectorFormat {
    /// Bytes that one sector of this format occupies in its encoded source.
    pub fn sector_size(&self) -> (r: u64)
        ensures
            r == spec_sector_size(*self),
    {
        match self {
            CdSectorFormat::Mode1_2048 => 2048,
            _ => 2352,
        }
    }
}

#[derive(Debug, Clone, Copy, PartialEq, Eq, Structural)]
pub struct CdIndex {
    pub number: u32,
    pub sector: u64,
}

#[derive(Debug, PartialEq, Eq)]
pub struct CdTrack {
    pub number: u32,
    pub sector_format: CdSectorFormat,
    pub sector_count: u64,
    pub source: SourceRef,
    pub source_offset: u64,
    pub encoded_content: ReaderHandle,
    pub subchannel_content: Option<ReaderHandle>,
    pub declared_pregap_sectors: u64,
    pub file_backed_pregap_sectors: u64,
    pub indexes: Vec<CdIndex>,
}

/// The sector of the first index numbered 1, if any.
pub open spec fn spec_index_one(indexes: Seq<CdIndex>) -> Option<u64>
    decreases indexes.len(),
{
    if indexes.len() == 0 {
        None
    } else if indexes[0].number == 1 {
        Some(indexes[0].sector)
    } else {
        spec_index_one(indexes.drop_first())
    }
}

impl CdTrack {
    /// Length in bytes of the track's encoded sectors, or `None` on overflow.
    pub fn encoded_len(&self) -> (r: Option<u64>)
        ensures
            r matches Some(n) ==> n == self.sector_count * spec_sector_size(self.sector_format),
            r is None ==> self.sector_count * spec_sector_size(self.sector_format) > u64::MAX,
    {
        self.sector_count.checked_mul(self.sector_format.sector_size())
    }

    /// Sector of this track's INDEX 01.
    pub fn index_one_sector(&self) -> (r: Option<u64>)
        ensures
            r == spec_index_one(self.indexes@),
    {
        let mut i: usize = 0;
        assert(self.indexes@.skip(0) =~= self.indexes@);
        while i < self.indexes.len()
            invariant
                i <= self.indexes@.len(),
                spec_index_one(self.indexes@) == spec_index_one(self.indexes@.skip(i as int)),
            decreases self.indexes@.len() - i,
        {
            assert(self.indexes@.skip(i as int).drop_first() =~= self.indexes@.skip(i + 1));
            if self.indexes[i].number == 1 {
                return Some(self.indexes[i].sector);
            }
            i = i + 1;
        }
        None
    }
}

impl CdTrack {
    /// Field-wise equality, with the index list compared by its contents.
    pub open spec fn same(self, other: CdTrack) -> bool {
        &&& self.number == other.number
        &&& self.sector_format == other.sector_format
        &&& self.sector_count == other.sector_count
        &&& self.source == other.source
        &&& self.source_offset == other.source_offset
        &&& self.encoded_content == other.encoded_content
        &&& self.subchannel_content == other.subchannel_content
        &&& self.declared_pregap_sectors == other.declared_pregap_sectors
        &&& self.file_backed_pregap_sectors == other.file_backed_pregap_sectors
        &&& self.indexes@ == other.indexes@
    }
}

impl Clone for CdTrack {
    fn clone(&self) -> (r: Self)
        ensures
            r.same(*self),
    {
        let mut indexes: Vec<CdIndex> = Vec::new();
        let mut i: usize = 0;
        while i < self.indexes.len()
            invariant
                i <= self.indexes@.len(),
                indexes@ == self.indexes@.take(i as int),
            decreases self.indexes@.len() - i,
        {
            indexes.push(self.indexes[i]);
            i = i + 1;
            assert(indexes@ =~= self.indexes@.take(i as int));
        }
        assert(indexes@ =~= self.indexes@);
        CdTrack {
            number: self.number,
            sector_format: self.sector_format,
            sector_count: self.sector_count,
            source: self.source.clone(),
            source_offset: self.source_offset,
            encoded_content: self.encoded_content.clone(),
            subchannel_content: match &self.subchannel_content {
                Some(h) => Some(h.clone()),
                None => None,
            },
            declared_pregap_sectors: self.declared_pregap_sectors,
            file_backed_pregap_sectors: self.file_backed_pregap_sectors,
            indexes,
        }
    }
}

/// A subchannel-index sidecar carried next to a disc.
#[derive(Debug, PartialEq, Eq)]
pub struct SbiSidecar {
    pub content: ReaderHandle,
    pub size: u64,
}

impl Clone for SbiSidecar {
    fn clone(&self) -> (r: Self)
        ensures
            r == *self,
    {
        SbiSidecar { content: self.content.clone(), size: self.size }
    }
}

#[derive(Debug, PartialEq, Eq)]
pub struct CdDisc {
    pub tracks: Vec<CdTrack>,
    pub sbi: Option<SbiSidecar>,
}

impl CdDisc {
    /// Track-wise equality.
    pub open spec fn same(self, other: CdDisc) -> bool {
        &&& self.tracks@.len() == other.tracks@.len()
        &&& forall|i: int| 0 <= i < self.tracks@.len() ==> (#[trigger] self.tracks@[i]).same(other.tracks@[i])
        &&& self.sbi == other.sbi
    }
}

impl Clone for CdDisc {
    fn clone(&self) -> (r: Self)
        ensures
            r.same(*self),
    {
        let mut tracks: Vec<CdTrack> = Vec::new();
        let mut i: usize = 0;
        while i < self.tracks.len()
            invariant
                i <= self.tracks@.len(),
                tracks@.len() == i,
                forall|j: int| 0 <= j < i ==> (#[trigger] tracks@[j]).same(self.tracks@[j]),
            decreases self.tracks@.len() - i,
        {
            tracks.push(self.tracks[i].clone());
            i = i + 1;
        }
        CdDisc {
            tracks,
            sbi: match &self.sbi {
                Some(s) => Some(s.clone()),
                None => None,
            },
        }
    }
}

} // verus!
