//! ISO output: a logical disc of 2048-byte sectors read live.
use vstd::prelude::*;

use crate::model::error::IoError;
use crate::output::capabilities::{CapabilityFeature, ContentType, EncoderCapability, Format};
use crate::output::encode::{refuses_sets, single_file_refusal, MaterializedNamedArtifact, MaterializationContext, MaterializedArtifact, OutputEncoder};
use crate::output::plan::{ArtifactRequest, ContentArtifact, PlannedArtifactKind};
use crate::text::{concat3, str_eq};

verus! {

pub struct LogicalDiscIsoEncoder;

impl LogicalDiscIsoEncoder {
    pub fn new() -> (r: Self) {
        LogicalDiscIsoEncoder
    }
}

impl Default for LogicalDiscIsoEncoder {
    fn default() -> (r: Self) {
        LogicalDiscIsoEncoder::new()
    }
}

impl OutputEncoder for LogicalDiscIsoEncoder {
    open spec fn encoder_id(&self) -> Seq<char> {
        "logical-disc-iso"@
    }

    open spec fn offers(&self, r: Seq<EncoderCapability>) -> bool {
        &&& r.len() == 1
        &&& r[0].plugin_id@ == "logical-disc-iso"@
        &&& r[0].capability_id@ == "disc.logical.iso"@
        &&& r[0].content_type == ContentType::Disc
        &&& r[0].formats@ == seq![Format::Iso]
        &&& r[0].features@.to_set() == set![CapabilityFeature::RandomAccess, CapabilityFeature::Lossless]
        &&& r[0].priority == 0
    }

    open spec fn materializes(
        &self,
        file_name: Seq<char>,
        artifact: ArtifactRequest,
        selected_capability_id: Seq<char>,
        context: MaterializationContext,
        r: Result<MaterializedArtifact, IoError>,
    ) -> bool {
        &&& selected_capability_id != "disc.logical.iso"@ ==> (r matches Err(e) && e.kind == std::io::ErrorKind::InvalidInput
            && e.message@ == "unsupported capability '"@ + selected_capability_id + "'"@)
        &&& selected_capability_id == "disc.logical.iso"@ ==> match artifact.kind {
            PlannedArtifactKind::ContentBacked(ContentArtifact::LogicalDisc(disc)) => if disc.sector_size != 2048 {
                r matches Err(e) && e.kind == std::io::ErrorKind::Unsupported
                    && e.message@ == "ISO output requires 2048-byte logical sectors"@
            } else if disc.sector_size * disc.sector_count > u64::MAX {
                r matches Err(e) && e.kind == std::io::ErrorKind::InvalidData && e.message@ == "logical disc size overflow"@
            } else {
                r == Ok::<MaterializedArtifact, IoError>(MaterializedArtifact::ReaderBacked {
                    handle: disc.content,
                    size: (disc.sector_size * disc.sector_count) as u64,
                })
            },
            PlannedArtifactKind::ContentBacked(_) => r matches Err(e) && e.kind == std::io::ErrorKind::InvalidInput
                && e.message@ == "logical ISO encoding requires logical disc content"@,
            _ => r matches Err(e) && e.kind == std::io::ErrorKind::InvalidInput
                && e.message@ == "logical ISO encoding requires a content-backed artifact"@,
        }
    }

    open spec fn materializes_set(
        &self,
        artifact_name: Seq<char>,
        artifact: ArtifactRequest,
        selected_capability_id: Seq<char>,
        context: MaterializationContext,
        r: Result<Vec<MaterializedNamedArtifact>, IoError>,
    ) -> bool {
        refuses_sets(selected_capability_id, r)
    }

    fn plugin_id(&self) -> (r: &str)
        ensures
            r@ == "logical-disc-iso"@,
    {
        "logical-disc-iso"
    }

    fn capabilities(&self) -> (r: Vec<EncoderCapability>)
    {
        let cap = EncoderCapability::new(self.plugin_id(), "disc.logical.iso", ContentType::Disc)
            .supports_format(Format::Iso)
            .with_feature(CapabilityFeature::RandomAccess)
            .with_feature(CapabilityFeature::Lossless);
        assert(cap.features@.to_set() =~= set![CapabilityFeature::RandomAccess, CapabilityFeature::Lossless]);
        let mut caps = Vec::new();
        caps.push(cap);
        caps
    }

    /// A logical disc of 2048-byte sectors becomes a reader-backed ISO of its full size.
    fn materialize(
        &self,
        file_name: &str,
        artifact: &ArtifactRequest,
        selected_capability_id: &str,
        context: &MaterializationContext,
    ) -> (r: Result<MaterializedArtifact, IoError>)
    {
        if !str_eq(selected_capability_id, "disc.logical.iso") {
            return Err(IoError::new(
                std::io::ErrorKind::InvalidInput,
                concat3("unsupported capability '", selected_capability_id, "'"),
            ));
        }
        let content = match &artifact.kind {
            PlannedArtifactKind::ContentBacked(content) => content,
            _ => {
                return Err(IoError::new(
                    std::io::ErrorKind::InvalidInput,
                    String::from_str("logical ISO encoding requires a content-backed artifact"),
                ));
            },
        };
        let disc = match content {
            ContentArtifact::LogicalDisc(disc) => disc,
            _ => {
                return Err(IoError::new(
                    std::io::ErrorKind::InvalidInput,
                    String::from_str("logical ISO encoding requires logical disc content"),
                ));
            },
        };
        if disc.sector_size != 2048 {
            return Err(IoError::new(
                std::io::ErrorKind::Unsupported,
                String::from_str("ISO output requires 2048-byte logical sectors"),
            ));
        }
        let size = match disc.byte_len() {
            Some(n) => n,
            None => {
                return Err(IoError::new(std::io::ErrorKind::InvalidData, String::from_str("logical disc size overflow")));
            },
        };
        Ok(MaterializedArtifact::ReaderBacked { handle: disc.content.clone(), size })
    }

    fn materialize_set(
        &self,
        artifact_name: &str,
        artifact: &ArtifactRequest,
        selected_capability_id: &str,
        context: &MaterializationContext,
    ) -> (r: Result<Vec<MaterializedNamedArtifact>, IoError>) {
        single_file_refusal(selected_capability_id)
    }
}

} // verus!
