//! CHD passthrough: a CD whose tracks all come from one CHD is presented as that CHD.
use vstd::prelude::*;

use crate::model::cd::CdDisc;
use crate::model::error::IoError;
use crate::model::source::{spec_file_name, SourceRef, SourceResolver};
use crate::output::capabilities::{CapabilityFeature, ContentType, EncoderCapability, Format};
use crate::output::encode::{MaterializationContext, MaterializedArtifact, MaterializedNamedArtifact, OutputEncoder};
use crate::output::plan::{ArtifactRequest, ContentArtifact, PlannedArtifactKind};
use crate::text::{chars_of, concat2, concat3, str_eq};

verus! {

/// Whether a file name ends in `.chd`, in any letter case.
pub open spec fn has_chd_extension(name: Seq<char>) -> bool {
    let n = name.len() as int;
    &&& n >= 4
    &&& name[n - 4] == '.'
    &&& (name[n - 3] == 'c' || name[n - 3] == 'C')
    &&& (name[n - 2] == 'h' || name[n - 2] == 'H')
    &&& (name[n - 1] == 'd' || name[n - 1] == 'D')
}

/// Whether every track of the disc comes from the given source.
pub open spec fn all_tracks_from(disc: CdDisc, source: Seq<char>) -> bool {
    forall|i: int| 0 <= i < disc.tracks@.len() ==> (#[trigger] disc.tracks@[i]).source.0@ == source
}

/// Why a disc cannot be passed through as its CHD, if it cannot.
pub open spec fn spec_passthrough_error(artifact: ArtifactRequest, capability_id: Seq<char>) -> Option<(std::io::ErrorKind, Seq<char>)> {
    if capability_id != "disc.chd-passthrough"@ {
        Some((std::io::ErrorKind::InvalidInput, "unsupported capability '"@ + capability_id + "'"@))
    } else if !(artifact.kind matches PlannedArtifactKind::ContentBacked(ContentArtifact::CdDisc(_))) {
        Some((std::io::ErrorKind::InvalidInput, "CHD passthrough requires track-aware CD content"@))
    } else {
        let disc = artifact.kind->ContentBacked_0->CdDisc_0;
        if disc.tracks@.len() == 0 {
            Some((std::io::ErrorKind::InvalidData, "CHD has no tracks"@))
        } else {
            let source = disc.tracks@[0].source.0@;
            if !has_chd_extension(spec_file_name(source)) || !all_tracks_from(disc, source) {
                Some((std::io::ErrorKind::InvalidInput, "CHD passthrough requires every track to originate from one CHD source"@))
            } else {
                None
            }
        }
    }
}

/// Whether `members` is the passthrough set: the CHD itself, backed by the tracks' source,
/// then the SBI sidecar when the disc has one.
pub open spec fn is_chd_set(artifact_name: Seq<char>, disc: CdDisc, members: Seq<MaterializedNamedArtifact>) -> bool {
    &&& members.len() == 1 + (if disc.sbi is Some { 1int } else { 0int })
    &&& members[0].name@ == artifact_name + ".chd"@
    &&& members[0].artifact matches MaterializedArtifact::SourceBacked { source, .. } && source == disc.tracks@[0].source
    &&& disc.sbi matches Some(sbi) ==> {
        &&& members[1].name@ == artifact_name + ".sbi"@
        &&& members[1].artifact == MaterializedArtifact::ReaderBacked { handle: sbi.content, size: sbi.size }
    }
}

/// Presents a CD read from a CHD as the CHD file; `resolver` tells the CHD's size, and
/// the CHD member has the size it answers.
pub struct ChdPassthroughEncoder<R: SourceResolver> {
    pub resolver: R,
}

impl<R: SourceResolver> ChdPassthroughEncoder<R> {
    pub fn new(resolver: R) -> (r: Self)
        ensures
            r.resolver == resolver,
    {
        ChdPassthroughEncoder { resolver }
    }
}

fn has_chd_extension_exec(name: &str) -> (r: bool)
    ensures
        r == has_chd_extension(name@),
{
    let chars = chars_of(name);
    let n = chars.len();
    if n < 4 {
        return false;
    }
    let c = chars[n - 3];
    let h = chars[n - 2];
    let d = chars[n - 1];
    chars[n - 4] == '.' && (c == 'c' || c == 'C') && (h == 'h' || h == 'H') && (d == 'd' || d == 'D')
}

/// The common source of all tracks, checked to be a CHD.
fn passthrough_source<'a>(artifact: &'a ArtifactRequest, selected_capability_id: &str) -> (r: Result<(&'a CdDisc, SourceRef), IoError>)
    ensures
        match spec_passthrough_error(*artifact, selected_capability_id@) {
            Some((kind, message)) => r matches Err(e) && e.kind == kind && e.message@ == message,
            None => r matches Ok((disc, source)) && *disc == artifact.kind->ContentBacked_0->CdDisc_0
                && disc.tracks@.len() > 0 && source == disc.tracks@[0].source,
        },
{
    if !str_eq(selected_capability_id, "disc.chd-passthrough") {
        return Err(IoError::new(
            std::io::ErrorKind::InvalidInput,
            concat3("unsupported capability '", selected_capability_id, "'"),
        ));
    }
    let disc = match &artifact.kind {
        PlannedArtifactKind::ContentBacked(ContentArtifact::CdDisc(disc)) => disc,
        _ => {
            return Err(IoError::new(
                std::io::ErrorKind::InvalidInput,
                String::from_str("CHD passthrough requires track-aware CD content"),
            ));
        },
    };
    if disc.tracks.len() == 0 {
        return Err(IoError::new(std::io::ErrorKind::InvalidData, String::from_str("CHD has no tracks")));
    }
    let source = disc.tracks[0].source.clone();
    let name = source.file_name();
    let mut same = true;
    let mut i: usize = 0;
    while i < disc.tracks.len()
        invariant
            i <= disc.tracks@.len(),
            source.0@ == disc.tracks@[0].source.0@,
            same == (forall|j: int| 0 <= j < i ==> (#[trigger] disc.tracks@[j]).source.0@ == source.0@),
        decreases disc.tracks@.len() - i,
    {
        if !disc.tracks[i].source.same(&source) {
            same = false;
        }
        i = i + 1;
    }
    if !has_chd_extension_exec(name.as_str()) || !same {
        return Err(IoError::new(
            std::io::ErrorKind::InvalidInput,
            String::from_str("CHD passthrough requires every track to originate from one CHD source"),
        ));
    }
    Ok((disc, source))
}

impl<R: SourceResolver> OutputEncoder for ChdPassthroughEncoder<R> {
    open spec fn encoder_id(&self) -> Seq<char> {
        "chd-passthrough"@
    }

    open spec fn offers(&self, r: Seq<EncoderCapability>) -> bool {
        &&& r.len() == 1
        &&& r[0].plugin_id@ == "chd-passthrough"@
        &&& r[0].capability_id@ == "disc.chd-passthrough"@
        &&& r[0].content_type == ContentType::Disc
        &&& r[0].formats@ == seq![Format::Chd]
        &&& r[0].features@.to_set() == set![CapabilityFeature::Lossless, CapabilityFeature::RandomAccess, CapabilityFeature::MultiFile]
        &&& r[0].priority == 0
    }

    open spec fn materializes(
        &self,
        file_name: Seq<char>,
        artifact: ArtifactRequest,
        selected_capability_id: Seq<char>,
        context: MaterializationContext,
        r: Result<MaterializedArtifact, IoError>,
    ) -> bool {
        &&& r matches Err(e) && e.kind == std::io::ErrorKind::Unsupported
            && e.message@ == "capability '"@ + selected_capability_id + "' produces an artifact set"@
    }

    open spec fn materializes_set(
        &self,
        artifact_name: Seq<char>,
        artifact: ArtifactRequest,
        selected_capability_id: Seq<char>,
        context: MaterializationContext,
        r: Result<Vec<MaterializedNamedArtifact>, IoError>,
    ) -> bool {
        &&& match spec_passthrough_error(artifact, selected_capability_id) {
            Some((kind, message)) => r matches Err(e) && e.kind == kind && e.message@ == message,
            None => {
                let disc = artifact.kind->ContentBacked_0->CdDisc_0;
                match r {
                    Ok(members) => {
                        &&& is_chd_set(artifact_name, disc, members@)
                        &&& members@[0].artifact matches MaterializedArtifact::SourceBacked { size, .. }
                            && call_ensures(R::source_len, (&self.resolver, &disc.tracks@[0].source), Ok::<u64, IoError>(size))
                    },
                    Err(e) => call_ensures(R::source_len, (&self.resolver, &disc.tracks@[0].source), Err::<u64, IoError>(e)),
                }
            },
        }
    }

    fn plugin_id(&self) -> (r: &str)
        ensures
            r@ == "chd-passthrough"@,
    {
        "chd-passthrough"
    }

    fn capabilities(&self) -> (r: Vec<EncoderCapability>)
    {
        let cap = EncoderCapability::new(self.plugin_id(), "disc.chd-passthrough", ContentType::Disc)
            .supports_format(Format::Chd)
            .with_feature(CapabilityFeature::Lossless)
            .with_feature(CapabilityFeature::RandomAccess)
            .with_feature(CapabilityFeature::MultiFile);
        assert(cap.features@.to_set() =~= set![CapabilityFeature::Lossless, CapabilityFeature::RandomAccess, CapabilityFeature::MultiFile]);
        let mut caps = Vec::new();
        caps.push(cap);
        caps
    }

    fn materialize(
        &self,
        file_name: &str,
        artifact: &ArtifactRequest,
        selected_capability_id: &str,
        context: &MaterializationContext,
    ) -> (r: Result<MaterializedArtifact, IoError>)
    {
        Err(IoError::new(
            std::io::ErrorKind::Unsupported,
            concat3("capability '", selected_capability_id, "' produces an artifact set"),
        ))
    }

    /// The CHD's size comes from the resolver; a resolver error is returned as it is.
    fn materialize_set(
        &self,
        artifact_name: &str,
        artifact: &ArtifactRequest,
        selected_capability_id: &str,
        context: &MaterializationContext,
    ) -> (r: Result<Vec<MaterializedNamedArtifact>, IoError>)
    {
        let (disc, source) = match passthrough_source(artifact, selected_capability_id) {
            Ok(found) => found,
            Err(e) => {
                return Err(e);
            },
        };
        let answer = self.resolver.source_len(&source);
        let ghost resolved = answer;
        let size = match answer {
            Ok(n) => n,
            Err(e) => {
                assert(resolved == Err::<u64, IoError>(e));
                return Err(e);
            },
        };
        let members = chd_members(artifact_name, source, size, disc);
        assert(resolved == Ok::<u64, IoError>(size));
        Ok(members)
    }
}

fn chd_members(artifact_name: &str, source: SourceRef, size: u64, disc: &CdDisc) -> (r: Vec<MaterializedNamedArtifact>)
    requires
        disc.tracks@.len() > 0,
        source == disc.tracks@[0].source,
    ensures
        is_chd_set(artifact_name@, *disc, r@),
        r@[0].artifact matches MaterializedArtifact::SourceBacked { size: n, .. } && n == size,
{
    let mut members: Vec<MaterializedNamedArtifact> = Vec::new();
    members.push(MaterializedNamedArtifact::new(
        concat2(artifact_name, ".chd"),
        MaterializedArtifact::SourceBacked { source, size },
    ));
    match &disc.sbi {
        Some(sbi) => {
            members.push(MaterializedNamedArtifact::new(
                concat2(artifact_name, ".sbi"),
                MaterializedArtifact::ReaderBacked { handle: sbi.content.clone(), size: sbi.size },
            ));
        },
        None => {},
    }
    members
}

} // verus!
