//! Normalized content: games made of ROM and disc parts, and loose bytes or text.
use vstd::prelude::*;

use crate::model::cd::CdDisc;
use crate::model::reader::ReaderHandle;
use crate::model::source::SourceRef;
use crate::text::IntoText;

verus! {

#[derive(Debug, PartialEq, Eq, Hash)]
pub struct ContentId(pub String);

impl Clone for ContentId {
    fn clone(&self) -> (r: Self)
        ensures
            r == *self,
    {
        ContentId(self.0.clone())
    }
}

impl ContentId {
    pub fn new<S: IntoText>(value: S) -> (r: Self)
        ensures
            r.0@ == value.text(),
    {
        ContentId(value.into_text())
    }

    /// The identifier text.
    pub fn to_string(&self) -> (r: String)
        ensures
            r@ == self.0@,
    {
        self.0.clone()
    }
}

#[derive(Debug, Clone, Copy, PartialEq, Eq, Structural)]
pub enum Platform {
    Snes,
    Ps1,
    Ps2,
    Nes,
    Megadrive,
    Unknown,
}

pub open spec fn spec_platform_name(platform: Platform) -> Seq<char> {
    match platform {
        Platform::Snes => seq!['s', 'n', 'e', 's'],
        Platform::Ps1 => seq!['p', 's', '1'],
        Platform::Ps2 => seq!['p', 's', '2'],
        Platform::Nes => seq!['n', 'e', 's'],
        Platform::Megadrive => seq!['m', 'e', 'g', 'a', 'd', 'r', 'i', 'v', 'e'],
        Platform::Unknown => seq!['u', 'n', 'k', 'n', 'o', 'w', 'n'],
    }
}

impl Platform {
    /// The platform's lower-case name.
    pub fn to_string(&self) -> (r: String)
        ensures
            r@ == spec_platform_name(*self),
    {
        let s = match self {
            Platform::Snes => "snes",
            Platform::Ps1 => "ps1",
            Platform::Ps2 => "ps2",
            Platform::Nes => "nes",
            Platform::Megadrive => "megadrive",
            Platform::Unknown => "unknown",
        };
        proof {
            reveal_strlit("snes");
            reveal_strlit("ps1");
            reveal_strlit("ps2");
            reveal_strlit("nes");
            reveal_strlit("megadrive");
            reveal_strlit("unknown");
        }
        String::from_str(s)
    }
}

#[derive(Debug, Clone, Copy, PartialEq, Eq, Structural)]
pub enum DiscMedia {
    Cd,
    Dvd,
}

/// A disc exposed as a contiguous run of equally sized logical sectors.
#[derive(Debug, PartialEq, Eq)]
pub struct LogicalDisc {
    pub media: DiscMedia,
    pub sector_size: u64,
    pub sector_count: u64,
    pub content: ReaderHandle,
}

impl Clone for LogicalDisc {
    fn clone(&self) -> (r: Self)
        ensures
            r == *self,
    {
        LogicalDisc {
            media: self.media,
            sector_size: self.sector_size,
            sector_count: self.sector_count,
            content: self.content.clone(),
        }
    }
}

impl LogicalDisc {
    /// Size in bytes, or `None` on overflow.
    pub fn byte_len(&self) -> (r: Option<u64>)
        ensures
            r matches Some(n) ==> n == self.sector_size * self.sector_count,
            r is None ==> self.sector_size * self.sector_count > u64::MAX,
    {
        self.sector_size.checked_mul(self.sector_count)
    }
}

#[derive(Debug, PartialEq, Eq)]
pub struct RomPart {
    pub source: SourceRef,
    pub size: u64,
}

#[derive(Debug, PartialEq, Eq)]
pub struct DiscPart {
    pub source: SourceRef,
    pub disc_number: u32,
    pub consumed_sources: Vec<SourceRef>,
    pub cd_disc: Option<CdDisc>,
    pub logical_disc: Option<LogicalDisc>,
}

impl DiscPart {
    /// Field-wise equality, with lists compared by contents.
    pub open spec fn same(self, other: DiscPart) -> bool {
        &&& self.source == other.source
        &&& self.disc_number == other.disc_number
        &&& self.consumed_sources@ == other.consumed_sources@
        &&& match (self.cd_disc, other.cd_disc) {
            (Some(a), Some(b)) => a.same(b),
            (None, None) => true,
            _ => false,
        }
        &&& self.logical_disc == other.logical_disc
    }
}

pub fn clone_sources(v: &Vec<SourceRef>) -> (r: Vec<SourceRef>)
    ensures
        r@ == v@,
{
    let mut out: Vec<SourceRef> = Vec::new();
    let mut i: usize = 0;
    while i < v.len()
        invariant
            i <= v@.len(),
            out@ == v@.take(i as int),
        decreases v@.len() - i,
    {
        out.push(v[i].clone());
        i = i + 1;
        assert(out@ =~= v@.take(i as int));
    }
    assert(out@ =~= v@);
    out
}

impl Clone for DiscPart {
    fn clone(&self) -> (r: Self)
        ensures
            r.same(*self),
    {
        let consumed_sources = clone_sources(&self.consumed_sources);
        DiscPart {
            source: self.source.clone(),
            disc_number: self.disc_number,
            consumed_sources,
            cd_disc: match &self.cd_disc {
                Some(d) => Some(d.clone()),
                None => None,
            },
            logical_disc: match &self.logical_disc {
                Some(d) => Some(d.clone()),
                None => None,
            },
        }
    }
}

#[derive(Debug, PartialEq, Eq)]
pub enum GamePart {
    Rom(RomPart),
    Disc(DiscPart),
}

#[derive(Debug, PartialEq, Eq)]
pub struct GameContent {
    pub id: ContentId,
    pub source: SourceRef,
    pub title: String,
    pub platform: Platform,
    pub parts: Vec<GamePart>,
    pub consumed_sources: Vec<SourceRef>,
}

#[derive(Debug, PartialEq, Eq)]
pub struct BytesContent {
    pub id: ContentId,
    pub source: SourceRef,
    pub size: u64,
}

#[derive(Debug, PartialEq, Eq)]
pub struct TextContent {
    pub id: ContentId,
    pub source: SourceRef,
    pub size: u64,
}

#[derive(Debug, PartialEq, Eq)]
pub enum NormalizedContent {
    Game(GameContent),
    Bytes(BytesContent),
    Text(TextContent),
}

pub open spec fn spec_content_id(item: NormalizedContent) -> ContentId {
    match item {
        NormalizedContent::Game(g) => g.id,
        NormalizedContent::Bytes(b) => b.id,
        NormalizedContent::Text(t) => t.id,
    }
}

impl NormalizedContent {
    pub fn id(&self) -> (r: &ContentId)
        ensures
            *r == spec_content_id(*self),
    {
        match self {
            NormalizedContent::Game(g) => &g.id,
            NormalizedContent::Bytes(b) => &b.id,
            NormalizedContent::Text(t) => &t.id,
        }
    }
}

} // verus!
