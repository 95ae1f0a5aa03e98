//! CUE/BIN output: a generated CUE sheet plus one live BIN per CD track.
use vstd::prelude::*;

use crate::model::cd::{spec_index_one, spec_sector_size, CdDisc, CdSectorFormat, CdTrack};
use crate::model::error::IoError;
use crate::model::reader::ReaderHandle;
use crate::output::capabilities::{CapabilityFeature, ContentType, EncoderCapability, Format};
use crate::output::encode::{MaterializationContext, MaterializedArtifact, MaterializedNamedArtifact, OutputEncoder};
use crate::output::plan::{ArtifactRequest, ContentArtifact, PlannedArtifactKind};
use crate::text::{concat2, concat3, contains_char, decimal, decimal2, decimal2_string, decimal_string, push_char, str_eq};

verus! {

/// The CUE `TRACK` mode keyword of a sector format.
pub open spec fn spec_cue_track_mode(format: CdSectorFormat) -> Seq<char> {
    match format {
        CdSectorFormat::Mode1_2048 => "MODE1/2048"@,
        CdSectorFormat::Mode1_2352 => "MODE1/2352"@,
        CdSectorFormat::Mode2_2352 => "MODE2/2352"@,
        CdSectorFormat::Audio2352 => "AUDIO"@,
    }
}

/// Whether a sector count can be written as a CUE time with two-digit minutes.
pub open spec fn cue_time_fits(sectors: u64) -> bool {
    sectors / 4500 <= 99
}

/// `MM:SS:FF` of a sector count, at 75 frames per second.
pub open spec fn spec_cue_time(sectors: u64) -> Seq<char> {
    decimal2((sectors / 4500) as nat) + seq![':'] + decimal2(((sectors % 4500) / 75) as nat) + seq![':']
        + decimal2(((sectors % 4500) % 75) as nat)
}

/// Whether a character is a decimal digit.
pub open spec fn is_digit(c: char) -> bool {
    '0' <= c && c <= '9'
}

/// The value of a decimal digit character.
pub open spec fn digit_value(c: char) -> int {
    (c as int) - ('0' as int)
}

/// The two characters of `t` at `at` read as a two-digit decimal number.
pub open spec fn two_digit_value(t: Seq<char>, at: int) -> int {
    digit_value(t[at]) * 10 + digit_value(t[at + 1])
}

proof fn lemma_digit_char(d: int)
    requires
        0 <= d <= 9,
    ensures
        is_digit(crate::text::digit_char(d)),
        digit_value(crate::text::digit_char(d)) == d,
{
}

/// A two-digit rendering is two digits that read back as the number.
proof fn lemma_decimal2_reads_back(n: nat)
    requires
        n < 100,
    ensures
        decimal2(n).len() == 2,
        is_digit(decimal2(n)[0]),
        is_digit(decimal2(n)[1]),
        two_digit_value(decimal2(n), 0) == n,
{
    if n < 10 {
        lemma_digit_char(0);
        lemma_digit_char(n as int);
    } else {
        let hi = n / 10;
        let lo = n % 10;
        assert(decimal(hi) == seq![crate::text::digit_char(hi as int)]);
        assert(decimal(n) == decimal(hi).push(crate::text::digit_char(lo as int)));
        lemma_digit_char(hi as int);
        lemma_digit_char(lo as int);
        assert(hi * 10 + lo == n);
    }
}

/// Reading a CUE time back gives its sector count: the text is `MM:SS:FF` in digits, and
/// minutes times 4500 plus seconds times 75 plus frames is the sector count, with fewer
/// than 60 seconds and fewer than 75 frames.
pub proof fn lemma_cue_time_reads_back(sectors: u64)
    requires
        cue_time_fits(sectors),
    ensures
        ({
            let t = spec_cue_time(sectors);
            &&& t.len() == 8
            &&& t[2] == ':' && t[5] == ':'
            &&& forall|k: int| 0 <= k < 8 && k != 2 && k != 5 ==> is_digit(#[trigger] t[k])
            &&& two_digit_value(t, 0) * 4500 + two_digit_value(t, 3) * 75 + two_digit_value(t, 6) == sectors
            &&& two_digit_value(t, 3) < 60
            &&& two_digit_value(t, 6) < 75
        }),
{
    let m = (sectors / 4500) as nat;
    let rem = sectors % 4500;
    let sec = (rem / 75) as nat;
    let fr = (rem % 75) as nat;
    vstd::arithmetic::div_mod::lemma_fundamental_div_mod(sectors as int, 4500);
    vstd::arithmetic::div_mod::lemma_fundamental_div_mod(rem as int, 75);
    assert(sec < 60);
    lemma_decimal2_reads_back(m);
    lemma_decimal2_reads_back(sec);
    lemma_decimal2_reads_back(fr);
    let t = spec_cue_time(sectors);
    let a = decimal2(m);
    let b = decimal2(sec);
    let c = decimal2(fr);
    assert(t == a + seq![':'] + b + seq![':'] + c);
    assert(t[0] == a[0] && t[1] == a[1] && t[2] == ':');
    assert(t[3] == b[0] && t[4] == b[1] && t[5] == ':');
    assert(t[6] == c[0] && t[7] == c[1]);
    assert(two_digit_value(t, 0) == m);
    assert(two_digit_value(t, 3) == sec);
    assert(two_digit_value(t, 6) == fr);
}

/// A CUE time can be written exactly for the sector counts below 100 minutes.
pub proof fn lemma_cue_time_range(sectors: u64)
    ensures
        cue_time_fits(sectors) <==> sectors < 100 * 60 * 75,
{
}

pub open spec fn cue_time_message() -> Seq<char> {
    "CUE time exceeds two-digit minute range"@
}

/// Why a track cannot be written as CUE/BIN, as the error kind and message, if it cannot.
pub open spec fn spec_validate_track(track: CdTrack) -> Option<(std::io::ErrorKind, Seq<char>)> {
    let d = decimal2(track.number as nat);
    if track.subchannel_content is Some {
        Some((std::io::ErrorKind::Unsupported, "CD track "@ + d + " contains subchannel data that CUE/BIN output cannot preserve"@))
    } else {
        match spec_index_one(track.indexes@) {
            None => Some((std::io::ErrorKind::InvalidData, "CD track "@ + d + " has no INDEX 01"@)),
            Some(sector) => if sector != track.file_backed_pregap_sectors {
                Some((std::io::ErrorKind::InvalidData, "CD track "@ + d + " INDEX 01 does not match its file-backed pregap"@))
            } else if exists|i: int| 0 <= i < track.indexes@.len() && (#[trigger] track.indexes@[i]).sector >= track.sector_count {
                Some((std::io::ErrorKind::InvalidData, "CD track "@ + d + " has an index outside its extent"@))
            } else {
                None
            },
        }
    }
}

/// Whether the pregap or an index of a track is too late to be written as a CUE time.
pub open spec fn spec_time_error(track: CdTrack) -> bool {
    ||| track.declared_pregap_sectors > 0 && !cue_time_fits(track.declared_pregap_sectors)
    ||| exists|i: int| 0 <= i < track.indexes@.len() && !cue_time_fits((#[trigger] track.indexes@[i]).sector)
}

/// Why a track stops the CUE/BIN set: a failed validation, a time that does not fit,
/// or an encoded length beyond `u64`.
pub open spec fn spec_track_error(track: CdTrack) -> Option<(std::io::ErrorKind, Seq<char>)> {
    match spec_validate_track(track) {
        Some(e) => Some(e),
        None => if spec_time_error(track) {
            Some((std::io::ErrorKind::InvalidData, cue_time_message()))
        } else if track.sector_count * spec_sector_size(track.sector_format) > u64::MAX {
            Some((std::io::ErrorKind::InvalidData, "encoded track length overflow"@))
        } else {
            None
        },
    }
}

/// The error of the first track that stops the set.
pub open spec fn first_track_error(tracks: Seq<CdTrack>) -> Option<(std::io::ErrorKind, Seq<char>)>
    decreases tracks.len(),
{
    if tracks.len() == 0 {
        None
    } else {
        match spec_track_error(tracks[0]) {
            Some(e) => Some(e),
            None => first_track_error(tracks.drop_first()),
        }
    }
}

/// The BIN file name of a track.
pub open spec fn spec_bin_name(artifact_name: Seq<char>, number: u32) -> Seq<char> {
    artifact_name + " (Track "@ + decimal2(number as nat) + ").bin"@
}

/// The `INDEX` lines of a track.
pub open spec fn spec_index_lines(indexes: Seq<crate::model::cd::CdIndex>) -> Seq<char>
    decreases indexes.len(),
{
    if indexes.len() == 0 {
        Seq::empty()
    } else {
        spec_index_lines(indexes.drop_last()) + "    INDEX "@ + decimal2(indexes.last().number as nat) + seq![' ']
            + spec_cue_time(indexes.last().sector) + seq!['\n']
    }
}

/// The CUE lines of one track: its `FILE`, `TRACK`, optional `PREGAP` and `INDEX` lines.
pub open spec fn spec_track_cue(artifact_name: Seq<char>, track: CdTrack) -> Seq<char> {
    "FILE \""@ + spec_bin_name(artifact_name, track.number) + "\" BINARY\n"@
        + "  TRACK "@ + decimal2(track.number as nat) + seq![' '] + spec_cue_track_mode(track.sector_format) + seq!['\n']
        + (if track.declared_pregap_sectors > 0 {
            "    PREGAP "@ + spec_cue_time(track.declared_pregap_sectors) + seq!['\n']
        } else {
            Seq::empty()
        })
        + spec_index_lines(track.indexes@)
}

/// The whole CUE sheet.
pub open spec fn spec_cue_sheet(artifact_name: Seq<char>, tracks: Seq<CdTrack>) -> Seq<char>
    decreases tracks.len(),
{
    if tracks.len() == 0 {
        Seq::empty()
    } else {
        spec_cue_sheet(artifact_name, tracks.drop_last()) + spec_track_cue(artifact_name, tracks.last())
    }
}

/// The description of the live reader over a track's encoded bytes.
pub open spec fn spec_track_handle(track: CdTrack, size: nat) -> Seq<char> {
    "cue-bin:"@ + track.source.0@ + seq![':'] + decimal(track.source_offset as nat) + seq![':'] + decimal(size)
}

/// Whether `members` is the CUE/BIN set of `disc` under `artifact_name`: the sheet, one
/// BIN per track in order, then the SBI sidecar when the disc has one.
pub open spec fn is_cue_bin_set(artifact_name: Seq<char>, disc: CdDisc, members: Seq<MaterializedNamedArtifact>) -> bool {
    let tracks = disc.tracks@;
    &&& members.len() == tracks.len() + 1 + (if disc.sbi is Some { 1int } else { 0int })
    &&& members[0].name@ == artifact_name + ".cue"@
    &&& members[0].artifact matches MaterializedArtifact::Inline(bytes)
        && bytes@ == vstd::utf8::encode_utf8(spec_cue_sheet(artifact_name, tracks))
    &&& forall|i: int| 0 <= i < tracks.len() ==> {
        let size = tracks[i].sector_count * spec_sector_size(tracks[i].sector_format);
        &&& (#[trigger] members[i + 1]).name@ == spec_bin_name(artifact_name, tracks[i].number)
        &&& members[i + 1].artifact matches MaterializedArtifact::ReaderBacked { handle, size: n }
            && n == size && handle.description@ == spec_track_handle(tracks[i], size as nat)
    }
    &&& disc.sbi matches Some(sbi) ==> {
        &&& members.last().name@ == artifact_name + ".sbi"@
        &&& members.last().artifact == MaterializedArtifact::ReaderBacked { handle: sbi.content, size: sbi.size }
    }
}

/// Why a CUE/BIN set cannot be produced, before any track is looked at.
pub open spec fn spec_request_error(artifact_name: Seq<char>, artifact: ArtifactRequest, capability_id: Seq<char>) -> Option<(std::io::ErrorKind, Seq<char>)> {
    if capability_id != "disc.cue-bin"@ {
        Some((std::io::ErrorKind::InvalidInput, "unsupported capability '"@ + capability_id + "'"@))
    } else if artifact_name.len() == 0 || artifact_name.contains('"') {
        Some((std::io::ErrorKind::InvalidInput, "CUE/BIN artifact name must be non-empty and contain no quotes"@))
    } else if !(artifact.kind matches PlannedArtifactKind::ContentBacked(ContentArtifact::CdDisc(_))) {
        Some((std::io::ErrorKind::InvalidInput, "CUE/BIN encoding requires track-aware CD content"@))
    } else if artifact.kind->ContentBacked_0->CdDisc_0.tracks@.len() == 0 {
        Some((std::io::ErrorKind::InvalidData, "CUE/BIN encoding requires at least one track"@))
    } else {
        None
    }
}

pub struct CueBinEncoder;

impl CueBinEncoder {
    pub fn new() -> (r: Self) {
        CueBinEncoder
    }
}

impl Default for CueBinEncoder {
    fn default() -> (r: Self) {
        CueBinEncoder::new()
    }
}

fn error(kind: std::io::ErrorKind, message: &str) -> (r: IoError)
    ensures
        r.kind == kind,
        r.message@ == message@,
{
    IoError::new(kind, String::from_str(message))
}

fn cue_track_mode(format: CdSectorFormat) -> (r: &'static str)
    ensures
        r@ == spec_cue_track_mode(format),
{
    match format {
        CdSectorFormat::Mode1_2048 => "MODE1/2048",
        CdSectorFormat::Mode1_2352 => "MODE1/2352",
        CdSectorFormat::Mode2_2352 => "MODE2/2352",
        CdSectorFormat::Audio2352 => "AUDIO",
    }
}

fn cue_time(sectors: u64) -> (r: Result<String, IoError>)
    ensures
        cue_time_fits(sectors) ==> (r matches Ok(s) && s@ == spec_cue_time(sectors)),
        !cue_time_fits(sectors) ==> (r matches Err(e) && e.kind == std::io::ErrorKind::InvalidData && e.message@ == cue_time_message()),
{
    let minutes = sectors / (75 * 60);
    if minutes > 99 {
        return Err(error(std::io::ErrorKind::InvalidData, "CUE time exceeds two-digit minute range"));
    }
    let remainder = sectors % (75 * 60);
    let mut s = decimal2_string(minutes);
    push_char(&mut s, ':');
    let seconds = decimal2_string(remainder / 75);
    s.append(seconds.as_str());
    push_char(&mut s, ':');
    let frames = decimal2_string(remainder % 75);
    s.append(frames.as_str());
    Ok(s)
}

fn track_message(number: u32, tail: &str) -> (r: String)
    ensures
        r@ == "CD track "@ + decimal2(number as nat) + tail@,
{
    let d = decimal2_string(number as u64);
    concat3("CD track ", d.as_str(), tail)
}

fn validate_track(track: &CdTrack) -> (r: Result<(), IoError>)
    ensures
        match spec_validate_track(*track) {
            Some((kind, message)) => r matches Err(e) && e.kind == kind && e.message@ == message,
            None => r is Ok,
        },
{
    if track.subchannel_content.is_some() {
        return Err(IoError::new(
            std::io::ErrorKind::Unsupported,
            track_message(track.number, " contains subchannel data that CUE/BIN output cannot preserve"),
        ));
    }
    let index_one = match track.index_one_sector() {
        Some(s) => s,
        None => {
            return Err(IoError::new(std::io::ErrorKind::InvalidData, track_message(track.number, " has no INDEX 01")));
        },
    };
    if index_one != track.file_backed_pregap_sectors {
        return Err(IoError::new(
            std::io::ErrorKind::InvalidData,
            track_message(track.number, " INDEX 01 does not match its file-backed pregap"),
        ));
    }
    let mut i: usize = 0;
    while i < track.indexes.len()
        invariant
            i <= track.indexes@.len(),
            track.subchannel_content is None,
            spec_index_one(track.indexes@) == Some(track.file_backed_pregap_sectors),
            forall|j: int| 0 <= j < i ==> (#[trigger] track.indexes@[j]).sector < track.sector_count,
        decreases track.indexes@.len() - i,
    {
        if track.indexes[i].sector >= track.sector_count {
            assert(track.indexes@[i as int].sector >= track.sector_count);
            return Err(IoError::new(
                std::io::ErrorKind::InvalidData,
                track_message(track.number, " has an index outside its extent"),
            ));
        }
        i = i + 1;
    }
    Ok(())
}

/// Appends the CUE lines of one track to `cue`.
fn write_track_cue(cue: &mut String, artifact_name: &str, bin_name: &str, track: &CdTrack) -> (r: Result<(), IoError>)
    requires
        bin_name@ == spec_bin_name(artifact_name@, track.number),
        spec_validate_track(*track) is None,
    ensures
        spec_time_error(*track) ==> (r matches Err(e) && e.kind == std::io::ErrorKind::InvalidData && e.message@ == cue_time_message()),
        !spec_time_error(*track) ==> r is Ok,
        r is Ok ==> final(cue)@ == old(cue)@ + spec_track_cue(artifact_name@, *track),
{
    let ghost start = cue@;
    cue.append("FILE \"");
    cue.append(bin_name);
    cue.append("\" BINARY\n");
    cue.append("  TRACK ");
    let number = decimal2_string(track.number as u64);
    cue.append(number.as_str());
    push_char(cue, ' ');
    cue.append(cue_track_mode(track.sector_format));
    push_char(cue, '\n');
    let ghost head = "FILE \""@ + spec_bin_name(artifact_name@, track.number) + "\" BINARY\n"@
        + "  TRACK "@ + decimal2(track.number as nat) + seq![' '] + spec_cue_track_mode(track.sector_format) + seq!['\n'];
    assert(cue@ =~= start + head);
    if track.declared_pregap_sectors > 0 {
        let pregap = match cue_time(track.declared_pregap_sectors) {
            Ok(t) => t,
            Err(e) => {
                return Err(e);
            },
        };
        cue.append("    PREGAP ");
        cue.append(pregap.as_str());
        push_char(cue, '\n');
    }
    let ghost pregap_lines = if track.declared_pregap_sectors > 0 {
        "    PREGAP "@ + spec_cue_time(track.declared_pregap_sectors) + seq!['\n']
    } else {
        Seq::<char>::empty()
    };
    assert(cue@ =~= start + head + pregap_lines);
    let mut i: usize = 0;
    while i < track.indexes.len()
        invariant
            i <= track.indexes@.len(),
            cue@ == start + head + pregap_lines + spec_index_lines(track.indexes@.take(i as int)),
            forall|j: int| 0 <= j < i ==> cue_time_fits((#[trigger] track.indexes@[j]).sector),
        decreases track.indexes@.len() - i,
    {
        let index = track.indexes[i];
        let time = match cue_time(index.sector) {
            Ok(t) => t,
            Err(e) => {
                assert(!cue_time_fits(track.indexes@[i as int].sector));
                return Err(e);
            },
        };
        let ghost before = cue@;
        cue.append("    INDEX ");
        let n = decimal2_string(index.number as u64);
        cue.append(n.as_str());
        push_char(cue, ' ');
        cue.append(time.as_str());
        push_char(cue, '\n');
        proof {
            let t = track.indexes@.take(i + 1);
            assert(t.drop_last() =~= track.indexes@.take(i as int));
            assert(t.last() == index);
            assert(cue@ =~= before + "    INDEX "@ + decimal2(index.number as nat) + seq![' '] + spec_cue_time(index.sector) + seq!['\n']);
        }
        i = i + 1;
    }
    assert(track.indexes@.take(track.indexes@.len() as int) =~= track.indexes@);
    assert(cue@ =~= old(cue)@ + spec_track_cue(artifact_name@, *track));
    Ok(())
}

impl OutputEncoder for CueBinEncoder {
    open spec fn encoder_id(&self) -> Seq<char> {
        "cue-bin"@
    }

    open spec fn offers(&self, r: Seq<EncoderCapability>) -> bool {
        &&& r.len() == 1
        &&& r[0].plugin_id@ == "cue-bin"@
        &&& r[0].capability_id@ == "disc.cue-bin"@
        &&& r[0].content_type == ContentType::Disc
        &&& r[0].formats@ == seq![Format::CueBin]
        &&& r[0].features@.to_set() == set![CapabilityFeature::Lossless, CapabilityFeature::RandomAccess, CapabilityFeature::MultiFile]
        &&& r[0].priority == 0
    }

    open spec fn materializes(
        &self,
        file_name: Seq<char>,
        artifact: ArtifactRequest,
        selected_capability_id: Seq<char>,
        context: MaterializationContext,
        r: Result<MaterializedArtifact, IoError>,
    ) -> bool {
        &&& r matches Err(e) && e.kind == std::io::ErrorKind::Unsupported
            && e.message@ == "capability '"@ + selected_capability_id + "' produces an artifact set"@
    }

    open spec fn materializes_set(
        &self,
        artifact_name: Seq<char>,
        artifact: ArtifactRequest,
        selected_capability_id: Seq<char>,
        context: MaterializationContext,
        r: Result<Vec<MaterializedNamedArtifact>, IoError>,
    ) -> bool {
        &&& match spec_request_error(artifact_name, artifact, selected_capability_id) {
            Some((kind, message)) => r matches Err(e) && e.kind == kind && e.message@ == message,
            None => {
                let disc = artifact.kind->ContentBacked_0->CdDisc_0;
                match first_track_error(disc.tracks@) {
                    Some((kind, message)) => r matches Err(e) && e.kind == kind && e.message@ == message,
                    None => r matches Ok(members) && is_cue_bin_set(artifact_name, disc, members@),
                }
            },
        }
    }

    fn plugin_id(&self) -> (r: &str)
        ensures
            r@ == "cue-bin"@,
    {
        "cue-bin"
    }

    fn capabilities(&self) -> (r: Vec<EncoderCapability>)
    {
        let cap = EncoderCapability::new(self.plugin_id(), "disc.cue-bin", ContentType::Disc)
            .supports_format(Format::CueBin)
            .with_feature(CapabilityFeature::Lossless)
            .with_feature(CapabilityFeature::RandomAccess)
            .with_feature(CapabilityFeature::MultiFile);
        assert(cap.features@.to_set() =~= set![CapabilityFeature::Lossless, CapabilityFeature::RandomAccess, CapabilityFeature::MultiFile]);
        let mut caps = Vec::new();
        caps.push(cap);
        caps
    }

    fn materialize(
        &self,
        file_name: &str,
        artifact: &ArtifactRequest,
        selected_capability_id: &str,
        context: &MaterializationContext,
    ) -> (r: Result<MaterializedArtifact, IoError>)
    {
        Err(IoError::new(
            std::io::ErrorKind::Unsupported,
            concat3("capability '", selected_capability_id, "' produces an artifact set"),
        ))
    }

    fn materialize_set(
        &self,
        artifact_name: &str,
        artifact: &ArtifactRequest,
        selected_capability_id: &str,
        context: &MaterializationContext,
    ) -> (r: Result<Vec<MaterializedNamedArtifact>, IoError>)
    {
        if !str_eq(selected_capability_id, "disc.cue-bin") {
            return Err(IoError::new(
                std::io::ErrorKind::InvalidInput,
                concat3("unsupported capability '", selected_capability_id, "'"),
            ));
        }
        if artifact_name.is_empty() || contains_char(artifact_name, '"') {
            return Err(error(std::io::ErrorKind::InvalidInput, "CUE/BIN artifact name must be non-empty and contain no quotes"));
        }
        let disc = match &artifact.kind {
            PlannedArtifactKind::ContentBacked(ContentArtifact::CdDisc(disc)) => disc,
            _ => {
                return Err(error(std::io::ErrorKind::InvalidInput, "CUE/BIN encoding requires track-aware CD content"));
            },
        };
        if disc.tracks.len() == 0 {
            return Err(error(std::io::ErrorKind::InvalidData, "CUE/BIN encoding requires at least one track"));
        }
        let ghost tracks = disc.tracks@;
        let mut cue = String::new();
        let mut members: Vec<MaterializedNamedArtifact> = Vec::new();
        let mut i: usize = 0;
        assert(tracks.skip(0) =~= tracks);
        while i < disc.tracks.len()
            invariant
                tracks == disc.tracks@,
                spec_request_error(artifact_name@, *artifact, selected_capability_id@) is None,
                *disc == artifact.kind->ContentBacked_0->CdDisc_0,
                i <= tracks.len(),
                first_track_error(tracks) == first_track_error(tracks.skip(i as int)),
                cue@ == spec_cue_sheet(artifact_name@, tracks.take(i as int)),
                members@.len() == i,
                forall|j: int| 0 <= j < i ==> {
                    let size = tracks[j].sector_count * spec_sector_size(tracks[j].sector_format);
                    &&& (#[trigger] members@[j]).name@ == spec_bin_name(artifact_name@, tracks[j].number)
                    &&& members@[j].artifact matches MaterializedArtifact::ReaderBacked { handle, size: n }
                        && n == size && handle.description@ == spec_track_handle(tracks[j], size as nat)
                },
            decreases tracks.len() - i,
        {
            let track = &disc.tracks[i];
            proof {
                assert(tracks.skip(i as int)[0] == tracks[i as int]);
                assert(tracks.skip(i as int).drop_first() =~= tracks.skip(i + 1));
            }
            match validate_track(track) {
                Ok(()) => {},
                Err(e) => {
                    return Err(e);
                },
            }
            let number = decimal2_string(track.number as u64);
            let mut bin_name = concat3(artifact_name, " (Track ", number.as_str());
            bin_name.append(").bin");
            let ghost before = cue@;
            match write_track_cue(&mut cue, artifact_name, bin_name.as_str(), track) {
                Ok(()) => {},
                Err(e) => {
                    return Err(e);
                },
            }
            let size = match track.encoded_len() {
                Some(n) => n,
                None => {
                    return Err(error(std::io::ErrorKind::InvalidData, "encoded track length overflow"));
                },
            };
            proof {
                assert(spec_track_error(*track) is None);
                let t = tracks.take(i + 1);
                assert(t.drop_last() =~= tracks.take(i as int));
            }
            let mut description = concat2("cue-bin:", track.source.0.as_str());
            push_char(&mut description, ':');
            let offset_text = decimal_string(track.source_offset);
            description.append(offset_text.as_str());
            push_char(&mut description, ':');
            let size_text = decimal_string(size);
            description.append(size_text.as_str());
            members.push(MaterializedNamedArtifact::new(
                bin_name,
                MaterializedArtifact::ReaderBacked { handle: ReaderHandle::new(description), size },
            ));
            i = i + 1;
        }
        assert(tracks.take(tracks.len() as int) =~= tracks);
        assert(tracks.skip(tracks.len() as int) =~= Seq::<CdTrack>::empty());
        let ghost bins = members@;
        let bytes = vstd::slice::slice_to_vec(cue.as_str().as_bytes());
        members.insert(0, MaterializedNamedArtifact::new(concat2(artifact_name, ".cue"), MaterializedArtifact::Inline(bytes)));
        assert(forall|j: int| 0 <= j < tracks.len() ==> #[trigger] members@[j + 1] == bins[j]);
        match &disc.sbi {
            Some(sbi) => {
                members.push(MaterializedNamedArtifact::new(
                    concat2(artifact_name, ".sbi"),
                    MaterializedArtifact::ReaderBacked { handle: sbi.content.clone(), size: sbi.size },
                ));
            },
            None => {},
        }
        Ok(members)
    }
}

} // verus!
