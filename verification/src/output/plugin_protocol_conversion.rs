//! Conversions between the host's planning types and the plugin protocol's wire types.
use vstd::prelude::*;

use crate::model::source::SourceRef;
use crate::output::capabilities::{CapabilityFeature, CapabilityRequirements, ContentType, EncoderCapability, Format};
use crate::output::encode::{spec_lookup, unique_keys, ArtifactNames, MaterializationContext, MaterializedArtifact};
use crate::output::enum_set::EnumSet;
use crate::output::plan::{
    ArtifactId, ArtifactReference, ArtifactRequest, GeneratedArtifact, PlannedArtifactKind, PlaylistArtifact, SourceArtifact,
    SourceArtifactInput,
};
use crate::output::plugin_protocol::{
    spec_name_for, MaterializationRequest, MaterializationResponse, PluginManifest, ProtocolArtifactKind, ProtocolArtifactName,
    ProtocolArtifactReference, ProtocolCapabilityFeature, ProtocolCapabilityRequirements, ProtocolContentType,
    ProtocolEncoderCapability, ProtocolError, ProtocolErrorView, ProtocolFormat, ProtocolGeneratedArtifact, ProtocolInlineFile,
    ProtocolMaterializationContext, ProtocolMaterializedSourceFile, ProtocolPlaylistArtifact, ProtocolSourceArtifact,
    ProtocolSourceArtifactInput, ProtocolVersion,
};
use crate::text::{blank, is_blank, IntoText};

verus! {

pub open spec fn proto_content_type(c: ContentType) -> ProtocolContentType {
    match c {
        ContentType::Rom => ProtocolContentType::Rom,
        ContentType::Disc => ProtocolContentType::Disc,
        ContentType::Playlist => ProtocolContentType::Playlist,
        ContentType::Archive => ProtocolContentType::Archive,
        ContentType::Directory => ProtocolContentType::Directory,
        ContentType::Bytes => ProtocolContentType::Bytes,
        ContentType::Text => ProtocolContentType::Text,
        ContentType::Game => ProtocolContentType::Game,
    }
}

pub open spec fn host_content_type(c: ProtocolContentType) -> ContentType {
    match c {
        ProtocolContentType::Rom => ContentType::Rom,
        ProtocolContentType::Disc => ContentType::Disc,
        ProtocolContentType::Playlist => ContentType::Playlist,
        ProtocolContentType::Archive => ContentType::Archive,
        ProtocolContentType::Directory => ContentType::Directory,
        ProtocolContentType::Bytes => ContentType::Bytes,
        ProtocolContentType::Text => ContentType::Text,
        ProtocolContentType::Game => ContentType::Game,
    }
}

pub open spec fn proto_format(f: Format) -> ProtocolFormat {
    match f {
        Format::Iso => ProtocolFormat::Iso,
        Format::Chd => ProtocolFormat::Chd,
        Format::Zip => ProtocolFormat::Zip,
        Format::M3u => ProtocolFormat::M3u,
        Format::Directory => ProtocolFormat::Directory,
        Format::Bin => ProtocolFormat::Bin,
        Format::CueBin => ProtocolFormat::CueBin,
        Format::Text => ProtocolFormat::Text,
    }
}

pub open spec fn host_format(f: ProtocolFormat) -> Format {
    match f {
        ProtocolFormat::Iso => Format::Iso,
        ProtocolFormat::Chd => Format::Chd,
        ProtocolFormat::Zip => Format::Zip,
        ProtocolFormat::M3u => Format::M3u,
        ProtocolFormat::Directory => Format::Directory,
        ProtocolFormat::Bin => Format::Bin,
        ProtocolFormat::CueBin => Format::CueBin,
        ProtocolFormat::Text => Format::Text,
    }
}

/// Whether a host feature and a protocol feature carry the same name.
pub open spec fn same_feature(f: CapabilityFeature, p: ProtocolCapabilityFeature) -> bool {
    &&& (f is MultiSource <==> p is MultiSource)
    &&& (f is Streaming <==> p is Streaming)
    &&& (f is Lossless <==> p is Lossless)
    &&& (f is RandomAccess <==> p is RandomAccess)
    &&& (f is SupportsPartial <==> p is SupportsPartial)
    &&& (f is MultiFile <==> p is MultiFile)
}

/// A feature crosses the protocol boundary under its own name, both ways: each host
/// feature is sent as the protocol feature of the same name, and each protocol feature
/// is read as the host feature of the same name.
pub proof fn lemma_features_keep_their_names(f: CapabilityFeature, p: ProtocolCapabilityFeature)
    ensures
        same_feature(f, proto_feature(f)),
        same_feature(host_feature(p), p),
{
}

pub open spec fn proto_feature(f: CapabilityFeature) -> ProtocolCapabilityFeature {
    match f {
        CapabilityFeature::MultiSource => ProtocolCapabilityFeature::MultiSource,
        CapabilityFeature::Streaming => ProtocolCapabilityFeature::Streaming,
        CapabilityFeature::Lossless => ProtocolCapabilityFeature::Lossless,
        CapabilityFeature::RandomAccess => ProtocolCapabilityFeature::RandomAccess,
        CapabilityFeature::SupportsPartial => ProtocolCapabilityFeature::SupportsPartial,
        CapabilityFeature::MultiFile => ProtocolCapabilityFeature::MultiFile,
    }
}

pub open spec fn host_feature(f: ProtocolCapabilityFeature) -> CapabilityFeature {
    match f {
        ProtocolCapabilityFeature::MultiSource => CapabilityFeature::MultiSource,
        ProtocolCapabilityFeature::Streaming => CapabilityFeature::Streaming,
        ProtocolCapabilityFeature::Lossless => CapabilityFeature::Lossless,
        ProtocolCapabilityFeature::RandomAccess => CapabilityFeature::RandomAccess,
        ProtocolCapabilityFeature::SupportsPartial => CapabilityFeature::SupportsPartial,
        ProtocolCapabilityFeature::MultiFile => CapabilityFeature::MultiFile,
    }
}

/// The host and protocol enumerations correspond one to one.
pub proof fn lemma_enum_maps_inverse()
    ensures
        forall|c: ContentType| #[trigger] host_content_type(proto_content_type(c)) == c,
        forall|c: ProtocolContentType| #[trigger] proto_content_type(host_content_type(c)) == c,
        forall|f: Format| #[trigger] host_format(proto_format(f)) == f,
        forall|f: ProtocolFormat| #[trigger] proto_format(host_format(f)) == f,
        forall|f: CapabilityFeature| #[trigger] host_feature(proto_feature(f)) == f,
        forall|f: ProtocolCapabilityFeature| #[trigger] proto_feature(host_feature(f)) == f,
{
}

pub fn to_protocol_content_type(c: ContentType) -> (r: ProtocolContentType)
    ensures
        r == proto_content_type(c),
{
    match c {
        ContentType::Rom => ProtocolContentType::Rom,
        ContentType::Disc => ProtocolContentType::Disc,
        ContentType::Playlist => ProtocolContentType::Playlist,
        ContentType::Archive => ProtocolContentType::Archive,
        ContentType::Directory => ProtocolContentType::Directory,
        ContentType::Bytes => ProtocolContentType::Bytes,
        ContentType::Text => ProtocolContentType::Text,
        ContentType::Game => ProtocolContentType::Game,
    }
}

pub fn from_protocol_content_type(c: ProtocolContentType) -> (r: ContentType)
    ensures
        r == host_content_type(c),
{
    match c {
        ProtocolContentType::Rom => ContentType::Rom,
        ProtocolContentType::Disc => ContentType::Disc,
        ProtocolContentType::Playlist => ContentType::Playlist,
        ProtocolContentType::Archive => ContentType::Archive,
        ProtocolContentType::Directory => ContentType::Directory,
        ProtocolContentType::Bytes => ContentType::Bytes,
        ProtocolContentType::Text => ContentType::Text,
        ProtocolContentType::Game => ContentType::Game,
    }
}

pub fn to_protocol_format(f: Format) -> (r: ProtocolFormat)
    ensures
        r == proto_format(f),
{
    match f {
        Format::Iso => ProtocolFormat::Iso,
        Format::Chd => ProtocolFormat::Chd,
        Format::Zip => ProtocolFormat::Zip,
        Format::M3u => ProtocolFormat::M3u,
        Format::Directory => ProtocolFormat::Directory,
        Format::Bin => ProtocolFormat::Bin,
        Format::CueBin => ProtocolFormat::CueBin,
        Format::Text => ProtocolFormat::Text,
    }
}

pub fn from_protocol_format(f: ProtocolFormat) -> (r: Format)
    ensures
        r == host_format(f),
{
    match f {
        ProtocolFormat::Iso => Format::Iso,
        ProtocolFormat::Chd => Format::Chd,
        ProtocolFormat::Zip => Format::Zip,
        ProtocolFormat::M3u => Format::M3u,
        ProtocolFormat::Directory => Format::Directory,
        ProtocolFormat::Bin => Format::Bin,
        ProtocolFormat::CueBin => Format::CueBin,
        ProtocolFormat::Text => Format::Text,
    }
}

pub fn to_protocol_feature(f: CapabilityFeature) -> (r: ProtocolCapabilityFeature)
    ensures
        r == proto_feature(f),
        same_feature(f, r),
{
    match f {
        CapabilityFeature::MultiSource => ProtocolCapabilityFeature::MultiSource,
        CapabilityFeature::Streaming => ProtocolCapabilityFeature::Streaming,
        CapabilityFeature::Lossless => ProtocolCapabilityFeature::Lossless,
        CapabilityFeature::RandomAccess => ProtocolCapabilityFeature::RandomAccess,
        CapabilityFeature::SupportsPartial => ProtocolCapabilityFeature::SupportsPartial,
        CapabilityFeature::MultiFile => ProtocolCapabilityFeature::MultiFile,
    }
}

pub fn from_protocol_feature(f: ProtocolCapabilityFeature) -> (r: CapabilityFeature)
    ensures
        r == host_feature(f),
        same_feature(r, f),
{
    match f {
        ProtocolCapabilityFeature::MultiSource => CapabilityFeature::MultiSource,
        ProtocolCapabilityFeature::Streaming => CapabilityFeature::Streaming,
        ProtocolCapabilityFeature::Lossless => CapabilityFeature::Lossless,
        ProtocolCapabilityFeature::RandomAccess => CapabilityFeature::RandomAccess,
        ProtocolCapabilityFeature::SupportsPartial => CapabilityFeature::SupportsPartial,
        ProtocolCapabilityFeature::MultiFile => CapabilityFeature::MultiFile,
    }
}

/// Whether protocol features are exactly the host features, mapped.
pub open spec fn features_correspond(host: Seq<CapabilityFeature>, proto: Seq<ProtocolCapabilityFeature>) -> bool {
    forall|f: CapabilityFeature| #[trigger] proto.contains(proto_feature(f)) == host.contains(f)
}

/// Whether protocol formats are exactly the host formats, mapped.
pub open spec fn formats_correspond(host: Seq<Format>, proto: Seq<ProtocolFormat>) -> bool {
    forall|f: Format| #[trigger] proto.contains(proto_format(f)) == host.contains(f)
}

/// The protocol features for host features, in the same order.
fn features_to_protocol(features: &EnumSet<CapabilityFeature>) -> (r: EnumSet<ProtocolCapabilityFeature>)
    ensures
        features_correspond(features@, r@),
{
    let items = features.as_slice();
    let mut out: EnumSet<ProtocolCapabilityFeature> = EnumSet::new();
    let mut i: usize = 0;
    while i < items.len()
        invariant
            i <= items@.len(),
            items@ == features@,
            features_correspond(items@.take(i as int), out@),
        decreases items@.len() - i,
    {
        let ghost before = out@;
        out.insert(to_protocol_feature(items[i]));
        proof {
            let t = items@.take(i + 1);
            assert(t =~= items@.take(i as int).push(items@[i as int]));
            assert forall|f: CapabilityFeature| #[trigger] out@.contains(proto_feature(f)) == t.contains(f) by {
                if f == items@[i as int] {
                    assert(t[i as int] == f);
                } else {
                    if t.contains(f) {
                        let j = choose|j: int| 0 <= j < t.len() && t[j] == f;
                        assert(items@.take(i as int)[j] == f);
                    }
                    if items@.take(i as int).contains(f) {
                        let j = choose|j: int| 0 <= j < i && items@.take(i as int)[j] == f;
                        assert(t[j] == f);
                    }
                    assert(proto_feature(f) != proto_feature(items@[i as int]));
                }
            }
        }
        i = i + 1;
    }
    assert(items@.take(items@.len() as int) =~= items@);
    out
}

/// The host features for protocol features, in the same order.
fn features_from_protocol(features: &EnumSet<ProtocolCapabilityFeature>) -> (r: EnumSet<CapabilityFeature>)
    ensures
        features_correspond(r@, features@),
{
    let items = features.as_slice();
    let mut out: EnumSet<CapabilityFeature> = EnumSet::new();
    let mut i: usize = 0;
    while i < items.len()
        invariant
            i <= items@.len(),
            items@ == features@,
            features_correspond(out@, items@.take(i as int)),
        decreases items@.len() - i,
    {
        let h = from_protocol_feature(items[i]);
        out.insert(h);
        proof {
            let t = items@.take(i + 1);
            assert(t =~= items@.take(i as int).push(items@[i as int]));
            assert(proto_feature(h) == items@[i as int]);
            assert forall|f: CapabilityFeature| #[trigger] t.contains(proto_feature(f)) == out@.contains(f) by {
                if f == h {
                    assert(t[i as int] == proto_feature(f));
                } else {
                    if t.contains(proto_feature(f)) {
                        let j = choose|j: int| 0 <= j < t.len() && t[j] == proto_feature(f);
                        assert(j != i);
                        assert(items@.take(i as int)[j] == proto_feature(f));
                    }
                    if items@.take(i as int).contains(proto_feature(f)) {
                        let j = choose|j: int| 0 <= j < i && items@.take(i as int)[j] == proto_feature(f);
                        assert(t[j] == proto_feature(f));
                    }
                }
            }
        }
        i = i + 1;
    }
    assert(items@.take(items@.len() as int) =~= items@);
    out
}

/// The protocol formats for host formats.
fn formats_to_protocol(formats: &EnumSet<Format>) -> (r: EnumSet<ProtocolFormat>)
    ensures
        formats_correspond(formats@, r@),
{
    let items = formats.as_slice();
    let mut out: EnumSet<ProtocolFormat> = EnumSet::new();
    let mut i: usize = 0;
    while i < items.len()
        invariant
            i <= items@.len(),
            items@ == formats@,
            formats_correspond(items@.take(i as int), out@),
        decreases items@.len() - i,
    {
        out.insert(to_protocol_format(items[i]));
        proof {
            let t = items@.take(i + 1);
            assert(t =~= items@.take(i as int).push(items@[i as int]));
            assert forall|f: Format| #[trigger] out@.contains(proto_format(f)) == t.contains(f) by {
                if f == items@[i as int] {
                    assert(t[i as int] == f);
                } else {
                    if t.contains(f) {
                        let j = choose|j: int| 0 <= j < t.len() && t[j] == f;
                        assert(items@.take(i as int)[j] == f);
                    }
                    if items@.take(i as int).contains(f) {
                        let j = choose|j: int| 0 <= j < i && items@.take(i as int)[j] == f;
                        assert(t[j] == f);
                    }
                    assert(proto_format(f) != proto_format(items@[i as int]));
                }
            }
        }
        i = i + 1;
    }
    assert(items@.take(items@.len() as int) =~= items@);
    out
}

/// The host formats for protocol formats.
fn formats_from_protocol(formats: &EnumSet<ProtocolFormat>) -> (r: EnumSet<Format>)
    ensures
        formats_correspond(r@, formats@),
{
    let items = formats.as_slice();
    let mut out: EnumSet<Format> = EnumSet::new();
    let mut i: usize = 0;
    while i < items.len()
        invariant
            i <= items@.len(),
            items@ == formats@,
            formats_correspond(out@, items@.take(i as int)),
        decreases items@.len() - i,
    {
        let h = from_protocol_format(items[i]);
        out.insert(h);
        proof {
            let t = items@.take(i + 1);
            assert(t =~= items@.take(i as int).push(items@[i as int]));
            assert(proto_format(h) == items@[i as int]);
            assert forall|f: Format| #[trigger] t.contains(proto_format(f)) == out@.contains(f) by {
                if f == h {
                    assert(t[i as int] == proto_format(f));
                } else {
                    if t.contains(proto_format(f)) {
                        let j = choose|j: int| 0 <= j < t.len() && t[j] == proto_format(f);
                        assert(j != i);
                        assert(items@.take(i as int)[j] == proto_format(f));
                    }
                    if items@.take(i as int).contains(proto_format(f)) {
                        let j = choose|j: int| 0 <= j < i && items@.take(i as int)[j] == proto_format(f);
                        assert(t[j] == proto_format(f));
                    }
                }
            }
        }
        i = i + 1;
    }
    assert(items@.take(items@.len() as int) =~= items@);
    out
}

/// Whether a protocol capability describes a host capability.
pub open spec fn capability_corresponds(host: EncoderCapability, proto: ProtocolEncoderCapability) -> bool {
    &&& proto.capability_id@ == host.capability_id@
    &&& proto.content_type == proto_content_type(host.content_type)
    &&& proto.priority == host.priority
    &&& formats_correspond(host.formats@, proto.formats@)
    &&& features_correspond(host.features@, proto.features@)
}

/// The protocol form of a host capability (the plugin id stays with the manifest).
pub fn to_protocol_capability(capability: &EncoderCapability) -> (r: ProtocolEncoderCapability)
    ensures
        capability_corresponds(*capability, r),
{
    ProtocolEncoderCapability {
        capability_id: capability.capability_id.clone(),
        content_type: to_protocol_content_type(capability.content_type),
        formats: formats_to_protocol(&capability.formats),
        features: features_to_protocol(&capability.features),
        priority: capability.priority,
    }
}

/// The host capability a plugin declares, attributed to the plugin.
pub fn to_encoder_capability(plugin_id: &str, capability: &ProtocolEncoderCapability) -> (r: EncoderCapability)
    ensures
        r.plugin_id@ == plugin_id@,
        capability_corresponds(r, *capability),
{
    EncoderCapability {
        plugin_id: plugin_id.into_text(),
        capability_id: capability.capability_id.clone(),
        content_type: from_protocol_content_type(capability.content_type),
        formats: formats_from_protocol(&capability.formats),
        features: features_from_protocol(&capability.features),
        priority: capability.priority,
    }
}

/// Whether protocol requirements describe host requirements.
pub open spec fn requirements_correspond(host: CapabilityRequirements, proto: ProtocolCapabilityRequirements) -> bool {
    &&& proto.content_type == proto_content_type(host.content_type)
    &&& match host.format {
        Some(f) => proto.format == Some(proto_format(f)),
        None => proto.format is None,
    }
    &&& features_correspond(host.required_features@, proto.required_features@)
    &&& features_correspond(host.preferred_features@, proto.preferred_features@)
    &&& features_correspond(host.forbidden_features@, proto.forbidden_features@)
}

pub fn to_protocol_requirements(requirements: &CapabilityRequirements) -> (r: ProtocolCapabilityRequirements)
    ensures
        requirements_correspond(*requirements, r),
{
    ProtocolCapabilityRequirements {
        content_type: to_protocol_content_type(requirements.content_type),
        format: match requirements.format {
            Some(f) => Some(to_protocol_format(f)),
            None => None,
        },
        required_features: features_to_protocol(&requirements.required_features),
        preferred_features: features_to_protocol(&requirements.preferred_features),
        forbidden_features: features_to_protocol(&requirements.forbidden_features),
    }
}

pub fn from_protocol_requirements(requirements: &ProtocolCapabilityRequirements) -> (r: CapabilityRequirements)
    ensures
        requirements_correspond(r, *requirements),
{
    let format = match requirements.format {
        Some(f) => Some(from_protocol_format(f)),
        None => None,
    };
    proof {
        lemma_enum_maps_inverse();
    }
    CapabilityRequirements {
        content_type: from_protocol_content_type(requirements.content_type),
        format,
        required_features: features_from_protocol(&requirements.required_features),
        preferred_features: features_from_protocol(&requirements.preferred_features),
        forbidden_features: features_from_protocol(&requirements.forbidden_features),
    }
}

/// Whether protocol inputs describe host inputs, one for one.
pub open spec fn inputs_correspond(host: Seq<SourceArtifactInput>, proto: Seq<ProtocolSourceArtifactInput>) -> bool {
    &&& host.len() == proto.len()
    &&& forall|i: int| 0 <= i < host.len() ==> (#[trigger] proto[i]).source@ == host[i].source.0@ && proto[i].size == host[i].size
}

/// Whether protocol references name the host references' artifacts, one for one.
pub open spec fn refs_correspond(host: Seq<ArtifactReference>, proto: Seq<ProtocolArtifactReference>) -> bool {
    &&& host.len() == proto.len()
    &&& forall|i: int| 0 <= i < host.len() ==> (#[trigger] proto[i]).artifact_id@ == host[i].artifact_id.0@
}

/// Whether a protocol artifact kind describes a host artifact kind.
pub open spec fn kind_corresponds(host: PlannedArtifactKind, proto: ProtocolArtifactKind) -> bool {
    match (host, proto) {
        (PlannedArtifactKind::SourceBacked(a), ProtocolArtifactKind::SourceBacked(p)) => inputs_correspond(a.inputs@, p.inputs@),
        (
            PlannedArtifactKind::Generated(GeneratedArtifact::Playlist(a)),
            ProtocolArtifactKind::Generated(ProtocolGeneratedArtifact::Playlist(p)),
        ) => refs_correspond(a.entries@, p.entries@),
        _ => false,
    }
}

/// Whether a protocol context lists the host context's names, in order.
pub open spec fn context_corresponds(context: MaterializationContext, proto: ProtocolMaterializationContext) -> bool {
    let names = context.artifact_names@;
    &&& names.len() == proto.artifact_names@.len()
    &&& forall|i: int| 0 <= i < names.len() ==> (#[trigger] proto.artifact_names@[i]).artifact_id@ == names[i].0.0@
        && proto.artifact_names@[i].logical_name@ == names[i].1@
}

pub open spec fn content_backed_message() -> Seq<char> {
    "content-backed artifacts cannot be materialized by plugins"@
}

fn inputs_to_protocol(inputs: &Vec<SourceArtifactInput>) -> (r: Vec<ProtocolSourceArtifactInput>)
    ensures
        inputs_correspond(inputs@, r@),
{
    let mut out: Vec<ProtocolSourceArtifactInput> = Vec::new();
    let mut i: usize = 0;
    while i < inputs.len()
        invariant
            i <= inputs@.len(),
            out@.len() == i,
            forall|j: int| 0 <= j < i ==> (#[trigger] out@[j]).source@ == inputs@[j].source.0@ && out@[j].size == inputs@[j].size,
        decreases inputs@.len() - i,
    {
        out.push(ProtocolSourceArtifactInput { source: inputs[i].source.0.clone(), size: inputs[i].size });
        i = i + 1;
    }
    out
}

fn refs_to_protocol(entries: &Vec<ArtifactReference>) -> (r: Vec<ProtocolArtifactReference>)
    ensures
        refs_correspond(entries@, r@),
{
    let mut out: Vec<ProtocolArtifactReference> = Vec::new();
    let mut i: usize = 0;
    while i < entries.len()
        invariant
            i <= entries@.len(),
            out@.len() == i,
            forall|j: int| 0 <= j < i ==> (#[trigger] out@[j]).artifact_id@ == entries@[j].artifact_id.0@,
        decreases entries@.len() - i,
    {
        out.push(ProtocolArtifactReference::new(entries[i].artifact_id.0.clone()));
        i = i + 1;
    }
    out
}

/// The protocol form of an artifact kind; content-backed artifacts have none.
pub fn to_protocol_kind(kind: &PlannedArtifactKind) -> (r: Result<ProtocolArtifactKind, ProtocolError>)
    ensures
        kind is ContentBacked ==> (r matches Err(e) && e@ == (ProtocolErrorView::UnsupportedArtifactKind { message: content_backed_message() })),
        !(kind is ContentBacked) ==> (r matches Ok(k) && kind_corresponds(*kind, k)),
{
    match kind {
        PlannedArtifactKind::SourceBacked(a) => Ok(ProtocolArtifactKind::SourceBacked(ProtocolSourceArtifact::multiple(inputs_to_protocol(&a.inputs)))),
        PlannedArtifactKind::Generated(GeneratedArtifact::Playlist(p)) => Ok(ProtocolArtifactKind::Generated(
            ProtocolGeneratedArtifact::Playlist(ProtocolPlaylistArtifact::new(refs_to_protocol(&p.entries))),
        )),
        PlannedArtifactKind::ContentBacked(_) => Err(ProtocolError::UnsupportedArtifactKind {
            message: String::from_str("content-backed artifacts cannot be materialized by plugins"),
        }),
    }
}

/// The protocol form of a materialization context: its names, in order.
pub fn to_protocol_context(context: &MaterializationContext) -> (r: ProtocolMaterializationContext)
    ensures
        context_corresponds(*context, r),
{
    let entries = context.artifact_names.entries();
    let mut names: Vec<ProtocolArtifactName> = Vec::new();
    let mut i: usize = 0;
    while i < entries.len()
        invariant
            i <= entries@.len(),
            entries@ == context.artifact_names@,
            names@.len() == i,
            forall|j: int| 0 <= j < i ==> (#[trigger] names@[j]).artifact_id@ == entries@[j].0.0@ && names@[j].logical_name@ == entries@[j].1@,
        decreases entries@.len() - i,
    {
        names.push(ProtocolArtifactName { artifact_id: entries[i].0.0.clone(), logical_name: entries[i].1.clone() });
        i = i + 1;
    }
    ProtocolMaterializationContext { artifact_names: names }
}

/// Whether a request carries a planned artifact to a plugin.
pub open spec fn request_encodes(
    file_name: Seq<char>,
    artifact: ArtifactRequest,
    capability_id: Seq<char>,
    context: MaterializationContext,
    request: MaterializationRequest,
) -> bool {
    &&& request.artifact_id@ == artifact.id.0@
    &&& request.logical_name@ == file_name
    &&& request.selected_capability_id@ == capability_id
    &&& kind_corresponds(artifact.kind, request.artifact_kind)
    &&& requirements_correspond(artifact.requirements, request.requirements)
    &&& context_corresponds(context, request.context)
}

/// The request a plugin is sent to materialize an artifact; content-backed artifacts
/// cannot be sent.
pub fn to_materialization_request(
    file_name: &str,
    artifact: &ArtifactRequest,
    selected_capability_id: &str,
    context: &MaterializationContext,
) -> (r: Result<MaterializationRequest, ProtocolError>)
    ensures
        artifact.kind is ContentBacked ==> (r matches Err(e) && e@ == (ProtocolErrorView::UnsupportedArtifactKind { message: content_backed_message() })),
        !(artifact.kind is ContentBacked) ==> (r matches Ok(request)
            && request_encodes(file_name@, *artifact, selected_capability_id@, *context, request)),
{
    let kind = match to_protocol_kind(&artifact.kind) {
        Ok(k) => k,
        Err(e) => {
            return Err(e);
        },
    };
    Ok(MaterializationRequest {
        artifact_id: artifact.id.0.clone(),
        logical_name: file_name.into_text(),
        selected_capability_id: selected_capability_id.into_text(),
        artifact_kind: kind,
        requirements: to_protocol_requirements(&artifact.requirements),
        context: to_protocol_context(context),
    })
}

/// The materialized artifact a plugin's response describes.
pub fn from_materialization_response(response: MaterializationResponse) -> (r: Result<MaterializedArtifact, ProtocolError>)
    ensures
        match response {
            MaterializationResponse::SourceBacked(file) => r matches Ok(MaterializedArtifact::SourceBacked { source, size })
                && source.0@ == file.source@ && size == file.size,
            MaterializationResponse::Inline(file) => r matches Ok(MaterializedArtifact::Inline(bytes)) && bytes == file.bytes,
        },
{
    match response {
        MaterializationResponse::SourceBacked(file) => Ok(MaterializedArtifact::SourceBacked { source: SourceRef::new(file.source), size: file.size }),
        MaterializationResponse::Inline(file) => Ok(MaterializedArtifact::Inline(file.bytes)),
    }
}

pub open spec fn reader_backed_message() -> Seq<char> {
    "reader-backed artifacts cannot be sent over the plugin protocol"@
}

/// The response a plugin sends for a materialized artifact; live readers cannot be sent.
pub fn to_protocol_response(artifact: MaterializedArtifact) -> (r: Result<MaterializationResponse, ProtocolError>)
    ensures
        match artifact {
            MaterializedArtifact::SourceBacked { source, size } => r matches Ok(MaterializationResponse::SourceBacked(file))
                && file.source@ == source.0@ && file.size == size,
            MaterializedArtifact::Inline(bytes) => r matches Ok(MaterializationResponse::Inline(file)) && file.bytes == bytes,
            MaterializedArtifact::ReaderBacked { .. } => r matches Err(e)
                && e@ == (ProtocolErrorView::UnsupportedArtifactKind { message: reader_backed_message() }),
        },
{
    match artifact {
        MaterializedArtifact::SourceBacked { source, size } => Ok(MaterializationResponse::SourceBacked(
            ProtocolMaterializedSourceFile { source: source.0, size },
        )),
        MaterializedArtifact::Inline(bytes) => Ok(MaterializationResponse::Inline(ProtocolInlineFile { bytes })),
        MaterializedArtifact::ReaderBacked { .. } => Err(ProtocolError::UnsupportedArtifactKind {
            message: String::from_str("reader-backed artifacts cannot be sent over the plugin protocol"),
        }),
    }
}

/// A plugin manifest declaring host capabilities.
pub fn to_protocol_manifest<P: IntoText, V: IntoText>(
    plugin_id: P,
    plugin_version: V,
    protocol_version: ProtocolVersion,
    display_name: Option<String>,
    description: Option<String>,
    capabilities: &[EncoderCapability],
) -> (r: PluginManifest)
    ensures
        r.plugin_id@ == plugin_id.text(),
        r.plugin_version@ == plugin_version.text(),
        r.protocol_version == protocol_version,
        r.display_name == display_name,
        r.description == description,
        r.capabilities@.len() == capabilities@.len(),
        forall|i: int| 0 <= i < capabilities@.len() ==> capability_corresponds(capabilities@[i], #[trigger] r.capabilities@[i]),
{
    let mut out: Vec<ProtocolEncoderCapability> = Vec::new();
    let mut i: usize = 0;
    while i < capabilities.len()
        invariant
            i <= capabilities@.len(),
            out@.len() == i,
            forall|j: int| 0 <= j < i ==> capability_corresponds(capabilities@[j], #[trigger] out@[j]),
        decreases capabilities@.len() - i,
    {
        out.push(to_protocol_capability(&capabilities[i]));
        i = i + 1;
    }
    PluginManifest {
        plugin_id: plugin_id.into_text(),
        plugin_version: plugin_version.into_text(),
        protocol_version,
        display_name,
        description,
        capabilities: out,
    }
}

pub open spec fn blank_source_message() -> Seq<char> {
    "source artifact input source must not be empty"@
}

/// Why a protocol artifact kind is refused, if it is.
pub open spec fn spec_kind_error(kind: ProtocolArtifactKind) -> Option<Seq<char>> {
    match kind {
        ProtocolArtifactKind::SourceBacked(p) => if exists|i: int| 0 <= i < p.inputs@.len() && is_blank((#[trigger] p.inputs@[i]).source@) {
            Some(blank_source_message())
        } else if p.inputs@.len() == 0 {
            Some("source-backed artifact must include at least one input"@)
        } else {
            None
        },
        ProtocolArtifactKind::Generated(ProtocolGeneratedArtifact::Playlist(p)) => if p.entries@.len() == 0 {
            Some("playlist artifact must include at least one entry"@)
        } else {
            None
        },
    }
}

/// Why a protocol context is refused: the first entry with a blank id or a blank name.
pub open spec fn spec_context_error(names: Seq<ProtocolArtifactName>) -> Option<Seq<char>>
    decreases names.len(),
{
    if names.len() == 0 {
        None
    } else if is_blank(names[0].artifact_id@) {
        Some("artifact context entry artifact_id must not be empty"@)
    } else if is_blank(names[0].logical_name@) {
        Some("artifact context entry logical_name must not be empty"@)
    } else {
        spec_context_error(names.drop_first())
    }
}

/// The name the last context entry for `id` gives it.
pub open spec fn last_context_name(names: Seq<ProtocolArtifactName>, id: Seq<char>) -> Option<Seq<char>>
    decreases names.len(),
{
    if names.len() == 0 {
        None
    } else if names.last().artifact_id@ == id {
        Some(names.last().logical_name@)
    } else {
        last_context_name(names.drop_last(), id)
    }
}

fn invalid_request(message: &str) -> (r: ProtocolError)
    ensures
        r@ == (ProtocolErrorView::InvalidRequest { message: message@ }),
{
    ProtocolError::InvalidRequest { message: String::from_str(message) }
}

/// The host artifact kind a protocol kind describes.
pub fn from_protocol_kind(kind: &ProtocolArtifactKind) -> (r: Result<PlannedArtifactKind, ProtocolError>)
    ensures
        match spec_kind_error(*kind) {
            Some(m) => r matches Err(e) && e@ == (ProtocolErrorView::InvalidRequest { message: m }),
            None => r matches Ok(k) && kind_corresponds(k, *kind),
        },
{
    match kind {
        ProtocolArtifactKind::SourceBacked(p) => {
            let mut inputs: Vec<SourceArtifactInput> = Vec::new();
            let mut i: usize = 0;
            while i < p.inputs.len()
                invariant
                    i <= p.inputs@.len(),
                    *kind == ProtocolArtifactKind::SourceBacked(*p),
                    inputs@.len() == i,
                    forall|j: int| 0 <= j < i ==> !is_blank((#[trigger] p.inputs@[j]).source@),
                    forall|j: int| 0 <= j < i ==> (#[trigger] inputs@[j]).source.0@ == p.inputs@[j].source@ && inputs@[j].size == p.inputs@[j].size,
                decreases p.inputs@.len() - i,
            {
                let input = &p.inputs[i];
                if blank(input.source.as_str()) {
                    assert(is_blank(p.inputs@[i as int].source@));
                    return Err(invalid_request("source artifact input source must not be empty"));
                }
                inputs.push(SourceArtifactInput { source: SourceRef::new(input.source.clone()), size: input.size });
                i = i + 1;
            }
            if inputs.len() == 0 {
                return Err(invalid_request("source-backed artifact must include at least one input"));
            }
            Ok(PlannedArtifactKind::SourceBacked(SourceArtifact::multiple(inputs)))
        },
        ProtocolArtifactKind::Generated(ProtocolGeneratedArtifact::Playlist(p)) => {
            if p.entries.len() == 0 {
                return Err(invalid_request("playlist artifact must include at least one entry"));
            }
            let mut entries: Vec<ArtifactReference> = Vec::new();
            let mut i: usize = 0;
            while i < p.entries.len()
                invariant
                    i <= p.entries@.len(),
                    entries@.len() == i,
                    forall|j: int| 0 <= j < i ==> (#[trigger] entries@[j]).artifact_id.0@ == p.entries@[j].artifact_id@,
                decreases p.entries@.len() - i,
            {
                entries.push(ArtifactReference::new(ArtifactId::new(p.entries[i].artifact_id.clone())));
                i = i + 1;
            }
            Ok(PlannedArtifactKind::Generated(GeneratedArtifact::Playlist(PlaylistArtifact::new(entries))))
        },
    }
}

/// The host context a protocol context describes: for each id, the last name given to it.
pub fn from_protocol_context(context: &ProtocolMaterializationContext) -> (r: Result<MaterializationContext, ProtocolError>)
    ensures
        match spec_context_error(context.artifact_names@) {
            Some(m) => r matches Err(e) && e@ == (ProtocolErrorView::InvalidRequest { message: m }),
            None => r matches Ok(c) && forall|id: Seq<char>| #[trigger] spec_lookup(c.artifact_names@, id)
                == last_context_name(context.artifact_names@, id),
        },
{
    let entries = &context.artifact_names;
    let mut names = ArtifactNames::new();
    let mut i: usize = 0;
    assert(entries@.skip(0) =~= entries@);
    while i < entries.len()
        invariant
            i <= entries@.len(),
            entries@ == context.artifact_names@,
            spec_context_error(entries@) == spec_context_error(entries@.skip(i as int)),
            forall|id: Seq<char>| #[trigger] spec_lookup(names@, id) == last_context_name(entries@.take(i as int), id),
        decreases entries@.len() - i,
    {
        let entry = &entries[i];
        proof {
            assert(entries@.skip(i as int)[0] == entries@[i as int]);
            assert(entries@.skip(i as int).drop_first() =~= entries@.skip(i + 1));
        }
        if blank(entry.artifact_id.as_str()) {
            return Err(invalid_request("artifact context entry artifact_id must not be empty"));
        }
        if blank(entry.logical_name.as_str()) {
            return Err(invalid_request("artifact context entry logical_name must not be empty"));
        }
        let ghost before = names@;
        names.insert(ArtifactId::new(entry.artifact_id.clone()), entry.logical_name.clone());
        proof {
            let t = entries@.take(i + 1);
            assert(t.drop_last() =~= entries@.take(i as int));
            assert(t.last() == *entry);
        }
        i = i + 1;
    }
    proof {
        assert(entries@.take(entries@.len() as int) =~= entries@);
        assert(entries@.skip(entries@.len() as int).len() == 0);
    }
    Ok(MaterializationContext { artifact_names: names })
}

/// Whether a decoded request is what a protocol request describes.
pub open spec fn request_decodes(
    request: MaterializationRequest,
    decoded: (String, ArtifactRequest, String, MaterializationContext),
) -> bool {
    &&& decoded.0@ == request.logical_name@
    &&& decoded.1.id.0@ == request.artifact_id@
    &&& kind_corresponds(decoded.1.kind, request.artifact_kind)
    &&& requirements_correspond(decoded.1.requirements, request.requirements)
    &&& decoded.2@ == request.selected_capability_id@
    &&& forall|id: Seq<char>| #[trigger] spec_lookup(decoded.3.artifact_names@, id) == last_context_name(request.context.artifact_names@, id)
}

/// Decodes a plugin's request into the logical name, artifact, selected capability and
/// context it carries; refuses a malformed kind first, then a malformed context.
pub fn to_artifact_request(request: MaterializationRequest) -> (r: Result<(String, ArtifactRequest, String, MaterializationContext), ProtocolError>)
    ensures
        match spec_kind_error(request.artifact_kind) {
            Some(m) => r matches Err(e) && e@ == (ProtocolErrorView::InvalidRequest { message: m }),
            None => match spec_context_error(request.context.artifact_names@) {
                Some(m) => r matches Err(e) && e@ == (ProtocolErrorView::InvalidRequest { message: m }),
                None => r matches Ok(decoded) && request_decodes(request, decoded),
            },
        },
{
    let kind = match from_protocol_kind(&request.artifact_kind) {
        Ok(k) => k,
        Err(e) => {
            return Err(e);
        },
    };
    let requirements = from_protocol_requirements(&request.requirements);
    let context = match from_protocol_context(&request.context) {
        Ok(c) => c,
        Err(e) => {
            return Err(e);
        },
    };
    let artifact = ArtifactRequest::new(ArtifactId::new(request.artifact_id.clone()), kind, requirements);
    Ok((request.logical_name.clone(), artifact, request.selected_capability_id.clone(), context))
}

/// Whether two artifact kinds describe the same sources or the same playlist entries.
pub open spec fn same_kind_view(a: PlannedArtifactKind, b: PlannedArtifactKind) -> bool {
    match (a, b) {
        (PlannedArtifactKind::SourceBacked(x), PlannedArtifactKind::SourceBacked(y)) => {
            &&& x.inputs@.len() == y.inputs@.len()
            &&& forall|i: int| 0 <= i < x.inputs@.len() ==> (#[trigger] x.inputs@[i]).source.0@ == y.inputs@[i].source.0@
                && x.inputs@[i].size == y.inputs@[i].size
        },
        (PlannedArtifactKind::Generated(GeneratedArtifact::Playlist(x)), PlannedArtifactKind::Generated(GeneratedArtifact::Playlist(y))) => {
            &&& x.entries@.len() == y.entries@.len()
            &&& forall|i: int| 0 <= i < x.entries@.len() ==> (#[trigger] x.entries@[i]).artifact_id.0@ == y.entries@[i].artifact_id.0@
        },
        _ => false,
    }
}

/// Whether two requirements state the same type, format and feature sets.
pub open spec fn same_requirements(a: CapabilityRequirements, b: CapabilityRequirements) -> bool {
    &&& a.content_type == b.content_type
    &&& a.format == b.format
    &&& forall|f: CapabilityFeature| #[trigger] a.required_features@.contains(f) == b.required_features@.contains(f)
    &&& forall|f: CapabilityFeature| #[trigger] a.preferred_features@.contains(f) == b.preferred_features@.contains(f)
    &&& forall|f: CapabilityFeature| #[trigger] a.forbidden_features@.contains(f) == b.forbidden_features@.contains(f)
}

/// Whether an artifact kind can cross the protocol and be accepted back: at least one
/// source, none blank, or a playlist with at least one entry.
pub open spec fn kind_sendable(kind: PlannedArtifactKind) -> bool {
    match kind {
        PlannedArtifactKind::SourceBacked(a) => a.inputs@.len() > 0
            && forall|i: int| 0 <= i < a.inputs@.len() ==> !is_blank((#[trigger] a.inputs@[i]).source.0@),
        PlannedArtifactKind::Generated(GeneratedArtifact::Playlist(p)) => p.entries@.len() > 0,
        PlannedArtifactKind::ContentBacked(_) => false,
    }
}

/// Whether every id and name of a context is non-blank.
pub open spec fn context_sendable(context: MaterializationContext) -> bool {
    forall|i: int| 0 <= i < context.artifact_names@.len() ==> !is_blank((#[trigger] context.artifact_names@[i]).0.0@)
        && !is_blank(context.artifact_names@[i].1@)
}

/// The name the last entry for `id` gives it.
pub open spec fn last_entry_name(entries: Seq<(ArtifactId, String)>, id: Seq<char>) -> Option<Seq<char>>
    decreases entries.len(),
{
    if entries.len() == 0 {
        None
    } else if entries.last().0.0@ == id {
        Some(entries.last().1@)
    } else {
        last_entry_name(entries.drop_last(), id)
    }
}

proof fn lemma_last_names_agree(entries: Seq<(ArtifactId, String)>, names: Seq<ProtocolArtifactName>, id: Seq<char>)
    requires
        entries.len() == names.len(),
        forall|i: int| 0 <= i < entries.len() ==> (#[trigger] names[i]).artifact_id@ == entries[i].0.0@
            && names[i].logical_name@ == entries[i].1@,
    ensures
        last_context_name(names, id) == last_entry_name(entries, id),
    decreases entries.len(),
{
    if entries.len() > 0 {
        assert(names.last() == names[names.len() - 1]);
        lemma_last_names_agree(entries.drop_last(), names.drop_last(), id);
    }
}

proof fn lemma_unique_first_is_last(entries: Seq<(ArtifactId, String)>, id: Seq<char>)
    requires
        unique_keys(entries),
    ensures
        last_entry_name(entries, id) == spec_lookup(entries, id),
    decreases entries.len(),
{
    if entries.len() > 0 {
        let rest = entries.drop_first();
        assert(unique_keys(rest)) by {
            assert forall|a: int, b: int| 0 <= a < b < rest.len() implies (#[trigger] rest[a]).0.0@ != (#[trigger] rest[b]).0.0@ by {
                assert(rest[a] == entries[a + 1] && rest[b] == entries[b + 1]);
            }
        }
        lemma_unique_first_is_last(rest, id);
        lemma_last_of_drop_first(entries, id);
        if entries[0].0.0@ == id {
            assert forall|k: int| 0 <= k < rest.len() implies (#[trigger] rest[k]).0.0@ != id by {
                assert(rest[k] == entries[k + 1]);
            }
            lemma_absent_last(rest, id);
        }
    }
}

proof fn lemma_absent_last(entries: Seq<(ArtifactId, String)>, id: Seq<char>)
    requires
        forall|k: int| 0 <= k < entries.len() ==> (#[trigger] entries[k]).0.0@ != id,
    ensures
        last_entry_name(entries, id) is None,
    decreases entries.len(),
{
    if entries.len() > 0 {
        assert(entries.last() == entries[entries.len() - 1]);
        lemma_absent_last(entries.drop_last(), id);
    }
}

proof fn lemma_last_of_drop_first(entries: Seq<(ArtifactId, String)>, id: Seq<char>)
    requires
        entries.len() > 0,
    ensures
        last_entry_name(entries, id) == match last_entry_name(entries.drop_first(), id) {
            Some(n) => Some(n),
            None => if entries[0].0.0@ == id { Some(entries[0].1@) } else { None },
        },
    decreases entries.len(),
{
    if entries.len() > 1 {
        let a = entries.drop_first();
        let b = entries.drop_last();
        assert(a.drop_last() =~= b.drop_first());
        assert(a.last() == entries.last());
        assert(b[0] == entries[0]);
        lemma_last_of_drop_first(b, id);
        if entries.last().0.0@ == id {
            assert(last_entry_name(a, id) == Some(entries.last().1@));
        } else {
            assert(last_entry_name(entries, id) == last_entry_name(b, id));
            assert(last_entry_name(a, id) == last_entry_name(a.drop_last(), id));
        }
    } else {
        assert(entries.last() == entries[0]);
        assert(entries.drop_first().len() == 0);
        assert(entries.drop_last().len() == 0);
        assert(last_entry_name(entries.drop_first(), id) is None);
        assert(last_entry_name(entries.drop_last(), id) is None);
    }
}

/// A request that a plugin decodes from what the host encoded carries the host's
/// artifact back: the same logical name, id, capability, sources or playlist entries,
/// requirements, and the same name for every artifact id; a sendable artifact and
/// context are accepted.
pub proof fn lemma_request_round_trip(
    file_name: Seq<char>,
    artifact: ArtifactRequest,
    capability_id: Seq<char>,
    context: MaterializationContext,
    request: MaterializationRequest,
    decoded: (String, ArtifactRequest, String, MaterializationContext),
)
    requires
        request_encodes(file_name, artifact, capability_id, context, request),
        unique_keys(context.artifact_names@),
    ensures
        kind_sendable(artifact.kind) ==> spec_kind_error(request.artifact_kind) is None,
        context_sendable(context) ==> spec_context_error(request.context.artifact_names@) is None,
        request_decodes(request, decoded) ==> {
            &&& decoded.0@ == file_name
            &&& decoded.1.id.0@ == artifact.id.0@
            &&& decoded.2@ == capability_id
            &&& same_kind_view(decoded.1.kind, artifact.kind)
            &&& same_requirements(decoded.1.requirements, artifact.requirements)
            &&& forall|id: Seq<char>| #[trigger] spec_lookup(decoded.3.artifact_names@, id) == spec_lookup(context.artifact_names@, id)
        },
{
    lemma_enum_maps_inverse();
    if kind_sendable(artifact.kind) {
        match (artifact.kind, request.artifact_kind) {
            (PlannedArtifactKind::SourceBacked(a), ProtocolArtifactKind::SourceBacked(p)) => {
                assert forall|i: int| 0 <= i < p.inputs@.len() implies !is_blank((#[trigger] p.inputs@[i]).source@) by {
                    assert(!is_blank(a.inputs@[i].source.0@));
                }
            },
            _ => {},
        }
    }
    if context_sendable(context) {
        lemma_context_accepted(context.artifact_names@, request.context.artifact_names@);
    }
    if request_decodes(request, decoded) {
        assert forall|id: Seq<char>| #[trigger] spec_lookup(decoded.3.artifact_names@, id) == spec_lookup(context.artifact_names@, id) by {
            lemma_last_names_agree(context.artifact_names@, request.context.artifact_names@, id);
            lemma_unique_first_is_last(context.artifact_names@, id);
        }
        match (decoded.1.kind, artifact.kind, request.artifact_kind) {
            (PlannedArtifactKind::SourceBacked(x), PlannedArtifactKind::SourceBacked(y), ProtocolArtifactKind::SourceBacked(p)) => {
                assert forall|i: int| 0 <= i < x.inputs@.len() implies (#[trigger] x.inputs@[i]).source.0@ == y.inputs@[i].source.0@
                    && x.inputs@[i].size == y.inputs@[i].size by {
                    assert(p.inputs@[i].source@ == x.inputs@[i].source.0@);
                    assert(p.inputs@[i].source@ == y.inputs@[i].source.0@);
                }
            },
            (
                PlannedArtifactKind::Generated(GeneratedArtifact::Playlist(x)),
                PlannedArtifactKind::Generated(GeneratedArtifact::Playlist(y)),
                ProtocolArtifactKind::Generated(ProtocolGeneratedArtifact::Playlist(p)),
            ) => {
                assert forall|i: int| 0 <= i < x.entries@.len() implies (#[trigger] x.entries@[i]).artifact_id.0@ == y.entries@[i].artifact_id.0@ by {
                    assert(p.entries@[i].artifact_id@ == x.entries@[i].artifact_id.0@);
                    assert(p.entries@[i].artifact_id@ == y.entries@[i].artifact_id.0@);
                }
            },
            _ => {},
        }
        let h = artifact.requirements;
        let d = decoded.1.requirements;
        let p = request.requirements;
        assert forall|f: CapabilityFeature| #[trigger] d.required_features@.contains(f) == h.required_features@.contains(f) by {
            assert(p.required_features@.contains(proto_feature(f)) == h.required_features@.contains(f));
        }
        assert forall|f: CapabilityFeature| #[trigger] d.preferred_features@.contains(f) == h.preferred_features@.contains(f) by {
            assert(p.preferred_features@.contains(proto_feature(f)) == h.preferred_features@.contains(f));
        }
        assert forall|f: CapabilityFeature| #[trigger] d.forbidden_features@.contains(f) == h.forbidden_features@.contains(f) by {
            assert(p.forbidden_features@.contains(proto_feature(f)) == h.forbidden_features@.contains(f));
        }
        match (d.format, h.format) {
            (Some(x), Some(y)) => {
                assert(host_format(proto_format(x)) == x);
                assert(host_format(proto_format(y)) == y);
            },
            _ => {},
        }
        assert(host_content_type(proto_content_type(d.content_type)) == d.content_type);
        assert(host_content_type(proto_content_type(h.content_type)) == h.content_type);
    }
}

proof fn lemma_context_accepted(entries: Seq<(ArtifactId, String)>, names: Seq<ProtocolArtifactName>)
    requires
        entries.len() == names.len(),
        forall|i: int| 0 <= i < entries.len() ==> (#[trigger] names[i]).artifact_id@ == entries[i].0.0@
            && names[i].logical_name@ == entries[i].1@,
        forall|i: int| 0 <= i < entries.len() ==> !is_blank((#[trigger] entries[i]).0.0@) && !is_blank(entries[i].1@),
    ensures
        spec_context_error(names) is None,
    decreases names.len(),
{
    if names.len() > 0 {
        assert(names[0].artifact_id@ == entries[0].0.0@);
        assert(!is_blank(entries[0].0.0@));
        assert forall|i: int| 0 <= i < entries.len() - 1 implies (#[trigger] names.drop_first()[i]).artifact_id@ == entries.drop_first()[i].0.0@
            && names.drop_first()[i].logical_name@ == entries.drop_first()[i].1@ by {
            assert(names.drop_first()[i] == names[i + 1]);
            assert(entries.drop_first()[i] == entries[i + 1]);
        }
        assert forall|i: int| 0 <= i < entries.len() - 1 implies !is_blank((#[trigger] entries.drop_first()[i]).0.0@)
            && !is_blank(entries.drop_first()[i].1@) by {
            assert(entries.drop_first()[i] == entries[i + 1]);
        }
        lemma_context_accepted(entries.drop_first(), names.drop_first());
    }
}

} // verus!
