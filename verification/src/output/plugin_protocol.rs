//! The versioned protocol spoken with external encoder plugins, and its validation.
use vstd::prelude::*;

use crate::output::enum_set::{EnumSet, Ranked};
use crate::text::{blank, concat3, is_blank, IntoText};

verus! {

/// Version 1.0 of the encoder plugin protocol.
pub open spec fn spec_protocol_v1() -> ProtocolVersion {
    ProtocolVersion { major: 1, minor: 0 }
}

/// The protocol version this host speaks.
pub fn encoder_plugin_protocol_v1() -> (r: ProtocolVersion)
    ensures
        r == spec_protocol_v1(),
{
    ProtocolVersion { major: 1, minor: 0 }
}

#[derive(Debug, Clone, Copy, PartialEq, Eq, PartialOrd, Ord, Hash, Structural)]
pub struct ProtocolVersion {
    pub major: u16,
    pub minor: u16,
}

impl ProtocolVersion {
    pub fn new(major: u16, minor: u16) -> (r: Self)
        ensures
            r.major == major,
            r.minor == minor,
    {
        ProtocolVersion { major, minor }
    }
}

#[derive(Debug, PartialEq, Eq)]
pub struct PluginManifest {
    pub plugin_id: String,
    pub plugin_version: String,
    pub protocol_version: ProtocolVersion,
    pub display_name: Option<String>,
    pub description: Option<String>,
    pub capabilities: Vec<ProtocolEncoderCapability>,
}

#[derive(Debug, PartialEq, Eq)]
pub struct ProtocolEncoderCapability {
    pub capability_id: String,
    pub content_type: ProtocolContentType,
    pub formats: EnumSet<ProtocolFormat>,
    pub features: EnumSet<ProtocolCapabilityFeature>,
    pub priority: u32,
}

impl ProtocolEncoderCapability {
    pub fn new<S: IntoText>(capability_id: S, content_type: ProtocolContentType) -> (r: Self)
        ensures
            r.capability_id@ == capability_id.text(),
            r.content_type == content_type,
            r.formats@ == Seq::<ProtocolFormat>::empty(),
            r.features@ == Seq::<ProtocolCapabilityFeature>::empty(),
            r.priority == 0,
    {
        ProtocolEncoderCapability {
            capability_id: capability_id.into_text(),
            content_type,
            formats: EnumSet::new(),
            features: EnumSet::new(),
            priority: 0,
        }
    }

    pub fn supports_format(self, format: ProtocolFormat) -> (r: Self)
        ensures
            r.formats@.to_set() == self.formats@.to_set().insert(format),
            r.capability_id == self.capability_id,
            r.content_type == self.content_type,
            r.features@ == self.features@,
            r.priority == self.priority,
    {
        let mut r = self;
        r.formats.insert(format);
        r
    }

    pub fn with_feature(self, feature: ProtocolCapabilityFeature) -> (r: Self)
        ensures
            r.features@.to_set() == self.features@.to_set().insert(feature),
            r.capability_id == self.capability_id,
            r.content_type == self.content_type,
            r.formats@ == self.formats@,
            r.priority == self.priority,
    {
        let mut r = self;
        r.features.insert(feature);
        r
    }

    pub fn with_priority(self, priority: u32) -> (r: Self)
        ensures
            r.priority == priority,
            r.capability_id == self.capability_id,
            r.content_type == self.content_type,
            r.formats@ == self.formats@,
            r.features@ == self.features@,
    {
        let mut r = self;
        r.priority = priority;
        r
    }

    pub fn supports_multi_source(&self) -> (r: bool)
        ensures
            r == self.features@.contains(ProtocolCapabilityFeature::MultiSource),
    {
        self.features.contains(&ProtocolCapabilityFeature::MultiSource)
    }
}

#[derive(Debug, Clone, Copy, PartialEq, Eq, PartialOrd, Ord, Hash, Structural)]
pub enum ProtocolContentType {
    Rom,
    Disc,
    Playlist,
    Archive,
    Directory,
    Bytes,
    Text,
    Game,
}

#[derive(Debug, Clone, Copy, PartialEq, Eq, PartialOrd, Ord, Hash, Structural)]
pub enum ProtocolFormat {
    Iso,
    Chd,
    Zip,
    M3u,
    Directory,
    Bin,
    CueBin,
    Text,
}

#[derive(Debug, Clone, Copy, PartialEq, Eq, PartialOrd, Ord, Hash, Structural)]
pub enum ProtocolCapabilityFeature {
    MultiSource,
    Streaming,
    Lossless,
    RandomAccess,
    SupportsPartial,
    MultiFile,
}

impl Ranked for ProtocolFormat {
    open spec fn rank(self) -> nat {
        match self {
            ProtocolFormat::Iso => 0,
            ProtocolFormat::Chd => 1,
            ProtocolFormat::Zip => 2,
            ProtocolFormat::M3u => 3,
            ProtocolFormat::Directory => 4,
            ProtocolFormat::Bin => 5,
            ProtocolFormat::CueBin => 6,
            ProtocolFormat::Text => 7,
        }
    }

    fn rank_of(&self) -> (r: u8) {
        match self {
            ProtocolFormat::Iso => 0,
            ProtocolFormat::Chd => 1,
            ProtocolFormat::Zip => 2,
            ProtocolFormat::M3u => 3,
            ProtocolFormat::Directory => 4,
            ProtocolFormat::Bin => 5,
            ProtocolFormat::CueBin => 6,
            ProtocolFormat::Text => 7,
        }
    }

    proof fn lemma_rank_injective(a: Self, b: Self) {
    }
}

impl Ranked for ProtocolCapabilityFeature {
    open spec fn rank(self) -> nat {
        match self {
            ProtocolCapabilityFeature::MultiSource => 0,
            ProtocolCapabilityFeature::Streaming => 1,
            ProtocolCapabilityFeature::Lossless => 2,
            ProtocolCapabilityFeature::RandomAccess => 3,
            ProtocolCapabilityFeature::SupportsPartial => 4,
            ProtocolCapabilityFeature::MultiFile => 5,
        }
    }

    fn rank_of(&self) -> (r: u8) {
        match self {
            ProtocolCapabilityFeature::MultiSource => 0,
            ProtocolCapabilityFeature::Streaming => 1,
            ProtocolCapabilityFeature::Lossless => 2,
            ProtocolCapabilityFeature::RandomAccess => 3,
            ProtocolCapabilityFeature::SupportsPartial => 4,
            ProtocolCapabilityFeature::MultiFile => 5,
        }
    }

    proof fn lemma_rank_injective(a: Self, b: Self) {
    }
}

/// The `Debug` rendering of a format.
pub open spec fn spec_format_name(f: ProtocolFormat) -> Seq<char> {
    match f {
        ProtocolFormat::Iso => "Iso"@,
        ProtocolFormat::Chd => "Chd"@,
        ProtocolFormat::Zip => "Zip"@,
        ProtocolFormat::M3u => "M3u"@,
        ProtocolFormat::Directory => "Directory"@,
        ProtocolFormat::Bin => "Bin"@,
        ProtocolFormat::CueBin => "CueBin"@,
        ProtocolFormat::Text => "Text"@,
    }
}

pub fn format_name(f: ProtocolFormat) -> (r: &'static str)
    ensures
        r@ == spec_format_name(f),
{
    match f {
        ProtocolFormat::Iso => "Iso",
        ProtocolFormat::Chd => "Chd",
        ProtocolFormat::Zip => "Zip",
        ProtocolFormat::M3u => "M3u",
        ProtocolFormat::Directory => "Directory",
        ProtocolFormat::Bin => "Bin",
        ProtocolFormat::CueBin => "CueBin",
        ProtocolFormat::Text => "Text",
    }
}

/// The `Debug` rendering of a feature.
pub open spec fn spec_feature_name(f: ProtocolCapabilityFeature) -> Seq<char> {
    match f {
        ProtocolCapabilityFeature::MultiSource => "MultiSource"@,
        ProtocolCapabilityFeature::Streaming => "Streaming"@,
        ProtocolCapabilityFeature::Lossless => "Lossless"@,
        ProtocolCapabilityFeature::RandomAccess => "RandomAccess"@,
        ProtocolCapabilityFeature::SupportsPartial => "SupportsPartial"@,
        ProtocolCapabilityFeature::MultiFile => "MultiFile"@,
    }
}

pub fn feature_name(f: ProtocolCapabilityFeature) -> (r: &'static str)
    ensures
        r@ == spec_feature_name(f),
{
    match f {
        ProtocolCapabilityFeature::MultiSource => "MultiSource",
        ProtocolCapabilityFeature::Streaming => "Streaming",
        ProtocolCapabilityFeature::Lossless => "Lossless",
        ProtocolCapabilityFeature::RandomAccess => "RandomAccess",
        ProtocolCapabilityFeature::SupportsPartial => "SupportsPartial",
        ProtocolCapabilityFeature::MultiFile => "MultiFile",
    }
}

#[derive(Debug, PartialEq, Eq)]
pub struct ProtocolCapabilityRequirements {
    pub content_type: ProtocolContentType,
    pub format: Option<ProtocolFormat>,
    pub required_features: EnumSet<ProtocolCapabilityFeature>,
    pub preferred_features: EnumSet<ProtocolCapabilityFeature>,
    pub forbidden_features: EnumSet<ProtocolCapabilityFeature>,
}

impl ProtocolCapabilityRequirements {
    pub fn new(content_type: ProtocolContentType) -> (r: Self)
        ensures
            r.content_type == content_type,
            r.format is None,
            r.required_features@ == Seq::<ProtocolCapabilityFeature>::empty(),
            r.preferred_features@ == Seq::<ProtocolCapabilityFeature>::empty(),
            r.forbidden_features@ == Seq::<ProtocolCapabilityFeature>::empty(),
    {
        ProtocolCapabilityRequirements {
            content_type,
            format: None,
            required_features: EnumSet::new(),
            preferred_features: EnumSet::new(),
            forbidden_features: EnumSet::new(),
        }
    }

    pub fn with_format(self, format: ProtocolFormat) -> (r: Self)
        ensures
            r.format == Some(format),
            r.content_type == self.content_type,
            r.required_features@ == self.required_features@,
            r.preferred_features@ == self.preferred_features@,
            r.forbidden_features@ == self.forbidden_features@,
    {
        let mut r = self;
        r.format = Some(format);
        r
    }

    pub fn require_feature(self, feature: ProtocolCapabilityFeature) -> (r: Self)
        ensures
            r.required_features@.to_set() == self.required_features@.to_set().insert(feature),
            r.content_type == self.content_type,
            r.format == self.format,
            r.preferred_features@ == self.preferred_features@,
            r.forbidden_features@ == self.forbidden_features@,
    {
        let mut r = self;
        r.required_features.insert(feature);
        r
    }

    pub fn prefer_feature(self, feature: ProtocolCapabilityFeature) -> (r: Self)
        ensures
            r.preferred_features@.to_set() == self.preferred_features@.to_set().insert(feature),
            r.content_type == self.content_type,
            r.format == self.format,
            r.required_features@ == self.required_features@,
            r.forbidden_features@ == self.forbidden_features@,
    {
        let mut r = self;
        r.preferred_features.insert(feature);
        r
    }

    pub fn forbid_feature(self, feature: ProtocolCapabilityFeature) -> (r: Self)
        ensures
            r.forbidden_features@.to_set() == self.forbidden_features@.to_set().insert(feature),
            r.content_type == self.content_type,
            r.format == self.format,
            r.required_features@ == self.required_features@,
            r.preferred_features@ == self.preferred_features@,
    {
        let mut r = self;
        r.forbidden_features.insert(feature);
        r
    }
}

#[derive(Debug, PartialEq, Eq)]
pub struct MaterializationRequest {
    pub artifact_id: String,
    pub logical_name: String,
    pub selected_capability_id: String,
    pub artifact_kind: ProtocolArtifactKind,
    pub requirements: ProtocolCapabilityRequirements,
    pub context: ProtocolMaterializationContext,
}

#[derive(Debug, PartialEq, Eq)]
pub enum ProtocolArtifactKind {
    SourceBacked(ProtocolSourceArtifact),
    Generated(ProtocolGeneratedArtifact),
}

#[derive(Debug, PartialEq, Eq)]
pub struct ProtocolSourceArtifact {
    pub inputs: Vec<ProtocolSourceArtifactInput>,
}

impl ProtocolSourceArtifact {
    pub fn single<S: IntoText>(source: S, size: u64) -> (r: Self)
        ensures
            r.inputs@.len() == 1,
            r.inputs@[0].source@ == source.text(),
            r.inputs@[0].size == size,
    {
        let mut inputs = Vec::new();
        inputs.push(ProtocolSourceArtifactInput { source: source.into_text(), size });
        ProtocolSourceArtifact { inputs }
    }

    pub fn multiple(inputs: Vec<ProtocolSourceArtifactInput>) -> (r: Self)
        ensures
            r.inputs == inputs,
    {
        ProtocolSourceArtifact { inputs }
    }

    pub fn is_multi_source(&self) -> (r: bool)
        ensures
            r == (self.inputs@.len() > 1),
    {
        self.inputs.len() > 1
    }
}

#[derive(Debug, PartialEq, Eq)]
pub struct ProtocolSourceArtifactInput {
    pub source: String,
    pub size: u64,
}

#[derive(Debug, PartialEq, Eq)]
pub enum ProtocolGeneratedArtifact {
    Playlist(ProtocolPlaylistArtifact),
}

#[derive(Debug, PartialEq, Eq)]
pub struct ProtocolPlaylistArtifact {
    pub entries: Vec<ProtocolArtifactReference>,
}

impl ProtocolPlaylistArtifact {
    pub fn new(entries: Vec<ProtocolArtifactReference>) -> (r: Self)
        ensures
            r.entries == entries,
    {
        ProtocolPlaylistArtifact { entries }
    }
}

#[derive(Debug, PartialEq, Eq)]
pub struct ProtocolArtifactReference {
    pub artifact_id: String,
}

impl ProtocolArtifactReference {
    pub fn new<S: IntoText>(artifact_id: S) -> (r: Self)
        ensures
            r.artifact_id@ == artifact_id.text(),
    {
        ProtocolArtifactReference { artifact_id: artifact_id.into_text() }
    }
}

#[derive(Debug, PartialEq, Eq, Default)]
pub struct ProtocolMaterializationContext {
    pub artifact_names: Vec<ProtocolArtifactName>,
}

/// The logical name of the first context entry for `id`.
pub open spec fn spec_name_for(names: Seq<ProtocolArtifactName>, id: Seq<char>) -> Option<Seq<char>>
    decreases names.len(),
{
    if names.len() == 0 {
        None
    } else if names[0].artifact_id@ == id {
        Some(names[0].logical_name@)
    } else {
        spec_name_for(names.drop_first(), id)
    }
}

impl ProtocolMaterializationContext {
    pub fn with_artifact_name<A: IntoText, L: IntoText>(self, artifact_id: A, logical_name: L) -> (r: Self)
        ensures
            r.artifact_names@.len() == self.artifact_names@.len() + 1,
            r.artifact_names@.drop_last() == self.artifact_names@,
            r.artifact_names@.last().artifact_id@ == artifact_id.text(),
            r.artifact_names@.last().logical_name@ == logical_name.text(),
    {
        let mut r = self;
        let entry = ProtocolArtifactName {
            artifact_id: artifact_id.into_text(),
            logical_name: logical_name.into_text(),
        };
        r.artifact_names.push(entry);
        proof {
            assert(r.artifact_names@.drop_last() =~= self.artifact_names@);
        }
        r
    }

    pub fn artifact_name_for(&self, artifact_id: &str) -> (r: Option<&str>)
        ensures
            r matches Some(n) ==> spec_name_for(self.artifact_names@, artifact_id@) == Some(n@),
            r is None ==> spec_name_for(self.artifact_names@, artifact_id@) is None,
    {
        let mut i: usize = 0;
        assert(self.artifact_names@.skip(0) =~= self.artifact_names@);
        while i < self.artifact_names.len()
            invariant
                i <= self.artifact_names@.len(),
                spec_name_for(self.artifact_names@, artifact_id@) == spec_name_for(
                    self.artifact_names@.skip(i as int),
                    artifact_id@,
                ),
            decreases self.artifact_names@.len() - i,
        {
            assert(self.artifact_names@.skip(i as int).drop_first() =~= self.artifact_names@.skip(i + 1));
            if crate::text::str_eq(self.artifact_names[i].artifact_id.as_str(), artifact_id) {
                return Some(self.artifact_names[i].logical_name.as_str());
            }
            i = i + 1;
        }
        None
    }
}

#[derive(Debug, PartialEq, Eq)]
pub struct ProtocolArtifactName {
    pub artifact_id: String,
    pub logical_name: String,
}

#[derive(Debug, PartialEq, Eq)]
pub enum PluginRequest {
    GetManifest,
    Materialize { request: Box<MaterializationRequest> },
}

#[derive(Debug, PartialEq, Eq)]
pub enum PluginResponse {
    Manifest { manifest: PluginManifest },
    Materialized { response: MaterializationResponse },
    Error { error: ProtocolPluginError },
}

#[derive(Debug, PartialEq, Eq)]
pub struct ProtocolPluginError {
    pub code: String,
    pub message: String,
}

#[derive(Debug, PartialEq, Eq)]
pub enum MaterializationResponse {
    SourceBacked(ProtocolMaterializedSourceFile),
    Inline(ProtocolInlineFile),
}

#[derive(Debug, PartialEq, Eq)]
pub struct ProtocolMaterializedSourceFile {
    pub source: String,
    pub size: u64,
}

#[derive(Debug, PartialEq, Eq)]
pub struct ProtocolInlineFile {
    pub bytes: Vec<u8>,
}

#[derive(Debug, PartialEq, Eq)]
pub enum ProtocolError {
    IncompatibleProtocolVersion { host: ProtocolVersion, plugin: ProtocolVersion },
    InvalidManifest { message: String },
    UnknownCapabilityId { capability_id: String },
    InvalidRequest { message: String },
    MissingContext { message: String },
    UnsupportedArtifactKind { message: String },
    MaterializationFailed { message: String },
    InternalPluginError { message: String },
}

/// A protocol error with its texts as character sequences.
pub enum ProtocolErrorView {
    IncompatibleProtocolVersion { host: ProtocolVersion, plugin: ProtocolVersion },
    InvalidManifest { message: Seq<char> },
    UnknownCapabilityId { capability_id: Seq<char> },
    InvalidRequest { message: Seq<char> },
    MissingContext { message: Seq<char> },
    UnsupportedArtifactKind { message: Seq<char> },
    MaterializationFailed { message: Seq<char> },
    InternalPluginError { message: Seq<char> },
}

impl View for ProtocolError {
    type V = ProtocolErrorView;

    open spec fn view(&self) -> ProtocolErrorView {
        match self {
            ProtocolError::IncompatibleProtocolVersion { host, plugin } => ProtocolErrorView::IncompatibleProtocolVersion {
                host: *host,
                plugin: *plugin,
            },
            ProtocolError::InvalidManifest { message } => ProtocolErrorView::InvalidManifest { message: message@ },
            ProtocolError::UnknownCapabilityId { capability_id } => ProtocolErrorView::UnknownCapabilityId {
                capability_id: capability_id@,
            },
            ProtocolError::InvalidRequest { message } => ProtocolErrorView::InvalidRequest { message: message@ },
            ProtocolError::MissingContext { message } => ProtocolErrorView::MissingContext { message: message@ },
            ProtocolError::UnsupportedArtifactKind { message } => ProtocolErrorView::UnsupportedArtifactKind {
                message: message@,
            },
            ProtocolError::MaterializationFailed { message } => ProtocolErrorView::MaterializationFailed {
                message: message@,
            },
            ProtocolError::InternalPluginError { message } => ProtocolErrorView::InternalPluginError {
                message: message@,
            },
        }
    }
}

impl Clone for ProtocolError {
    fn clone(&self) -> (r: Self)
        ensures
            r@ == self@,
    {
        match self {
            ProtocolError::IncompatibleProtocolVersion { host, plugin } => ProtocolError::IncompatibleProtocolVersion {
                host: *host,
                plugin: *plugin,
            },
            ProtocolError::InvalidManifest { message } => ProtocolError::InvalidManifest { message: message.clone() },
            ProtocolError::UnknownCapabilityId { capability_id } => ProtocolError::UnknownCapabilityId {
                capability_id: capability_id.clone(),
            },
            ProtocolError::InvalidRequest { message } => ProtocolError::InvalidRequest { message: message.clone() },
            ProtocolError::MissingContext { message } => ProtocolError::MissingContext { message: message.clone() },
            ProtocolError::UnsupportedArtifactKind { message } => ProtocolError::UnsupportedArtifactKind {
                message: message.clone(),
            },
            ProtocolError::MaterializationFailed { message } => ProtocolError::MaterializationFailed {
                message: message.clone(),
            },
            ProtocolError::InternalPluginError { message } => ProtocolError::InternalPluginError {
                message: message.clone(),
            },
        }
    }
}

pub open spec fn spec_result_view(r: Result<(), ProtocolError>) -> Result<(), ProtocolErrorView> {
    match r {
        Ok(()) => Ok(()),
        Err(e) => Err(e@),
    }
}

pub fn ensure_protocol_compatible(host: &ProtocolVersion, plugin: &ProtocolVersion) -> (r: Result<(), ProtocolError>)
    ensures
        (r is Ok) <==> (*host == *plugin),
        r matches Err(e) ==> (e == (ProtocolError::IncompatibleProtocolVersion { host: *host, plugin: *plugin })),
{
    if host.major == plugin.major && host.minor == plugin.minor {
        Ok(())
    } else {
        Err(ProtocolError::IncompatibleProtocolVersion { host: *host, plugin: *plugin })
    }
}

/// The verdict on the capability `c` given the capabilities listed before it.
pub open spec fn spec_capability_error(earlier: Seq<ProtocolEncoderCapability>, c: ProtocolEncoderCapability) -> Option<ProtocolErrorView> {
    if is_blank(c.capability_id@) {
        Some(ProtocolErrorView::InvalidManifest { message: "capability_id must not be empty"@ })
    } else if c.formats@.len() == 0 {
        Some(ProtocolErrorView::InvalidManifest {
            message: "capability '"@ + c.capability_id@ + "' must declare at least one format"@,
        })
    } else if exists|j: int| 0 <= j < earlier.len() && (#[trigger] earlier[j]).capability_id@ == c.capability_id@ {
        Some(ProtocolErrorView::InvalidManifest { message: "duplicate capability_id '"@ + c.capability_id@ + "'"@ })
    } else {
        None
    }
}

/// The first capability error in list order.
pub open spec fn spec_capabilities_error(caps: Seq<ProtocolEncoderCapability>) -> Option<ProtocolErrorView>
    decreases caps.len(),
{
    if caps.len() == 0 {
        None
    } else {
        match spec_capabilities_error(caps.drop_last()) {
            Some(e) => Some(e),
            None => spec_capability_error(caps.drop_last(), caps.last()),
        }
    }
}

/// The outcome of validating a manifest: the first failed check, if any.
pub open spec fn spec_validate_manifest(m: PluginManifest) -> Result<(), ProtocolErrorView> {
    if is_blank(m.plugin_id@) {
        Err(ProtocolErrorView::InvalidManifest { message: "plugin_id must not be empty"@ })
    } else if is_blank(m.plugin_version@) {
        Err(ProtocolErrorView::InvalidManifest { message: "plugin_version must not be empty"@ })
    } else if m.protocol_version != spec_protocol_v1() {
        Err(ProtocolErrorView::IncompatibleProtocolVersion { host: spec_protocol_v1(), plugin: m.protocol_version })
    } else {
        match spec_capabilities_error(m.capabilities@) {
            Some(e) => Err(e),
            None => Ok(()),
        }
    }
}

pub fn validate_manifest(manifest: &PluginManifest) -> (r: Result<(), ProtocolError>)
    ensures
        spec_result_view(r) == spec_validate_manifest(*manifest),
{
    if blank(manifest.plugin_id.as_str()) {
        return Err(ProtocolError::InvalidManifest { message: String::from_str("plugin_id must not be empty") });
    }
    if blank(manifest.plugin_version.as_str()) {
        return Err(ProtocolError::InvalidManifest { message: String::from_str("plugin_version must not be empty") });
    }
    let v1 = encoder_plugin_protocol_v1();
    match ensure_protocol_compatible(&v1, &manifest.protocol_version) {
        Ok(()) => {},
        Err(e) => {
            return Err(e);
        },
    }
    let caps = &manifest.capabilities;
    let mut i: usize = 0;
    while i < caps.len()
        invariant
            i <= caps@.len(),
            caps@ == manifest.capabilities@,
            !is_blank(manifest.plugin_id@),
            !is_blank(manifest.plugin_version@),
            manifest.protocol_version == spec_protocol_v1(),
            spec_capabilities_error(caps@.take(i as int)) is None,
        decreases caps@.len() - i,
    {
        assert(caps@.take(i + 1).drop_last() =~= caps@.take(i as int));
        let capability = &caps[i];
        if blank(capability.capability_id.as_str()) {
            proof {
                lemma_first_error_stays(caps@, i as int);
            }
            return Err(ProtocolError::InvalidManifest { message: String::from_str("capability_id must not be empty") });
        }
        if capability.formats.is_empty() {
            proof {
                lemma_first_error_stays(caps@, i as int);
            }
            return Err(ProtocolError::InvalidManifest {
                message: concat3("capability '", capability.capability_id.as_str(), "' must declare at least one format"),
            });
        }
        let mut j: usize = 0;
        while j < i
            invariant
                j <= i < caps@.len(),
                *capability == caps@[i as int],
                caps@ == manifest.capabilities@,
                !is_blank(manifest.plugin_id@),
                !is_blank(manifest.plugin_version@),
                manifest.protocol_version == spec_protocol_v1(),
                spec_capabilities_error(caps@.take(i as int)) is None,
                !is_blank(caps@[i as int].capability_id@),
                caps@[i as int].formats@.len() != 0,
                forall|k: int| 0 <= k < j ==> (#[trigger] caps@[k]).capability_id@ != caps@[i as int].capability_id@,
            decreases i - j,
        {
            if crate::text::str_eq(caps[j].capability_id.as_str(), capability.capability_id.as_str()) {
                proof {
                    assert(caps@.take(i as int)[j as int] == caps@[j as int]);
                    assert(caps@.take(i as int)[j as int].capability_id@ == caps@[i as int].capability_id@);
                    lemma_first_error_stays(caps@, i as int);
                }
                return Err(ProtocolError::InvalidManifest {
                    message: concat3("duplicate capability_id '", capability.capability_id.as_str(), "'"),
                });
            }
            j = j + 1;
        }
        proof {
            assert forall|k: int| 0 <= k < i implies (#[trigger] caps@.take(i as int)[k]).capability_id@ != caps@[i as int].capability_id@ by {
                assert(caps@.take(i as int)[k] == caps@[k]);
            }
        }
        i = i + 1;
    }
    assert(caps@.take(caps@.len() as int) =~= caps@);
    Ok(())
}

/// Once a prefix has no error, the error of the next capability is the error of the longer prefix,
/// and an error in a prefix is the error of the whole list.
proof fn lemma_first_error_stays(caps: Seq<ProtocolEncoderCapability>, i: int)
    requires
        0 <= i < caps.len(),
        spec_capabilities_error(caps.take(i)) is None,
        spec_capability_error(caps.take(i), caps[i]) is Some,
    ensures
        spec_capabilities_error(caps) == spec_capability_error(caps.take(i), caps[i]),
    decreases caps.len() - i,
{
    assert(caps.take(i + 1).drop_last() =~= caps.take(i));
    if i + 1 == caps.len() {
        assert(caps.take(i + 1) =~= caps);
    } else {
        lemma_error_prefix(caps, i + 1);
    }
}

proof fn lemma_error_prefix(caps: Seq<ProtocolEncoderCapability>, n: int)
    requires
        0 <= n <= caps.len(),
        spec_capabilities_error(caps.take(n)) is Some,
    ensures
        spec_capabilities_error(caps) == spec_capabilities_error(caps.take(n)),
    decreases caps.len() - n,
{
    if n == caps.len() {
        assert(caps.take(n) =~= caps);
    } else {
        assert(caps.take(n + 1).drop_last() =~= caps.take(n));
        lemma_error_prefix(caps, n + 1);
    }
}

/// The first capability with the given id.
pub open spec fn spec_find_capability(caps: Seq<ProtocolEncoderCapability>, id: Seq<char>) -> Option<ProtocolEncoderCapability>
    decreases caps.len(),
{
    if caps.len() == 0 {
        None
    } else if caps[0].capability_id@ == id {
        Some(caps[0])
    } else {
        spec_find_capability(caps.drop_first(), id)
    }
}

/// The first feature of `wanted` that `have` lacks.
pub open spec fn spec_first_missing(wanted: Seq<ProtocolCapabilityFeature>, have: Seq<ProtocolCapabilityFeature>) -> Option<ProtocolCapabilityFeature>
    decreases wanted.len(),
{
    if wanted.len() == 0 {
        None
    } else if !have.contains(wanted[0]) {
        Some(wanted[0])
    } else {
        spec_first_missing(wanted.drop_first(), have)
    }
}

/// The first feature of `unwanted` that `have` holds.
pub open spec fn spec_first_present(unwanted: Seq<ProtocolCapabilityFeature>, have: Seq<ProtocolCapabilityFeature>) -> Option<ProtocolCapabilityFeature>
    decreases unwanted.len(),
{
    if unwanted.len() == 0 {
        None
    } else if have.contains(unwanted[0]) {
        Some(unwanted[0])
    } else {
        spec_first_present(unwanted.drop_first(), have)
    }
}

/// The first playlist entry for which the context holds no name.
pub open spec fn spec_first_unnamed(entries: Seq<ProtocolArtifactReference>, names: Seq<ProtocolArtifactName>) -> Option<ProtocolArtifactReference>
    decreases entries.len(),
{
    if entries.len() == 0 {
        None
    } else if spec_name_for(names, entries[0].artifact_id@) is None {
        Some(entries[0])
    } else {
        spec_first_unnamed(entries.drop_first(), names)
    }
}

pub open spec fn invalid_request(message: Seq<char>) -> Result<(), ProtocolErrorView> {
    Err(ProtocolErrorView::InvalidRequest { message })
}

/// The checks that follow the capability lookup, on the capability `c`.
pub open spec fn spec_validate_against(request: MaterializationRequest, c: ProtocolEncoderCapability) -> Result<(), ProtocolErrorView> {
    let id = c.capability_id@;
    let requirements = request.requirements;
    if c.content_type != requirements.content_type {
        invalid_request("selected capability '"@ + id + "' content type does not match request requirements"@)
    } else if requirements.format is Some && !c.formats@.contains(requirements.format->0) {
        invalid_request("selected capability '"@ + id + "' does not support required format '"@
            + spec_format_name(requirements.format->0) + "'"@)
    } else if spec_first_missing(requirements.required_features@, c.features@) is Some {
        invalid_request("selected capability '"@ + id + "' is missing required feature '"@
            + spec_feature_name(spec_first_missing(requirements.required_features@, c.features@)->0) + "'"@)
    } else if spec_first_present(requirements.forbidden_features@, c.features@) is Some {
        invalid_request("selected capability '"@ + id + "' includes forbidden feature '"@
            + spec_feature_name(spec_first_present(requirements.forbidden_features@, c.features@)->0) + "'"@)
    } else {
        match request.artifact_kind {
            ProtocolArtifactKind::SourceBacked(source) => {
                if source.inputs@.len() == 0 {
                    invalid_request("source-backed artifact must include at least one input"@)
                } else if source.inputs@.len() > 1 && !c.features@.contains(ProtocolCapabilityFeature::MultiSource) {
                    invalid_request("selected capability '"@ + id + "' does not support multi-source artifacts"@)
                } else {
                    Ok(())
                }
            },
            ProtocolArtifactKind::Generated(ProtocolGeneratedArtifact::Playlist(playlist)) => {
                if playlist.entries@.len() == 0 {
                    invalid_request("playlist artifact must include at least one entry"@)
                } else {
                    match spec_first_unnamed(playlist.entries@, request.context.artifact_names@) {
                        Some(entry) => Err(ProtocolErrorView::MissingContext {
                            message: "missing artifact name for referenced artifact '"@ + entry.artifact_id@ + "'"@,
                        }),
                        None => Ok(()),
                    }
                }
            },
        }
    }
}

/// The outcome of validating a request against a manifest: the first failed check, if any.
pub open spec fn spec_validate_request(request: MaterializationRequest, manifest: PluginManifest) -> Result<(), ProtocolErrorView> {
    if is_blank(request.artifact_id@) {
        invalid_request("artifact_id must not be empty"@)
    } else if is_blank(request.logical_name@) {
        invalid_request("logical_name must not be empty"@)
    } else if is_blank(request.selected_capability_id@) {
        invalid_request("selected_capability_id must not be empty"@)
    } else {
        match spec_find_capability(manifest.capabilities@, request.selected_capability_id@) {
            None => Err(ProtocolErrorView::UnknownCapabilityId { capability_id: request.selected_capability_id@ }),
            Some(c) => spec_validate_against(request, c),
        }
    }
}

fn find_capability<'a>(caps: &'a Vec<ProtocolEncoderCapability>, id: &str) -> (r: Option<&'a ProtocolEncoderCapability>)
    ensures
        r matches Some(c) ==> spec_find_capability(caps@, id@) == Some(*c),
        r is None ==> spec_find_capability(caps@, id@) is None,
{
    let mut i: usize = 0;
    assert(caps@.skip(0) =~= caps@);
    while i < caps.len()
        invariant
            i <= caps@.len(),
            spec_find_capability(caps@, id@) == spec_find_capability(caps@.skip(i as int), id@),
        decreases caps@.len() - i,
    {
        assert(caps@.skip(i as int).drop_first() =~= caps@.skip(i + 1));
        if crate::text::str_eq(caps[i].capability_id.as_str(), id) {
            return Some(&caps[i]);
        }
        i = i + 1;
    }
    None
}

fn first_missing(wanted: &EnumSet<ProtocolCapabilityFeature>, have: &EnumSet<ProtocolCapabilityFeature>) -> (r: Option<ProtocolCapabilityFeature>)
    ensures
        r == spec_first_missing(wanted@, have@),
{
    let items = wanted.as_slice();
    let mut i: usize = 0;
    assert(items@.skip(0) =~= items@);
    while i < items.len()
        invariant
            i <= items@.len(),
            items@ == wanted@,
            spec_first_missing(wanted@, have@) == spec_first_missing(items@.skip(i as int), have@),
        decreases items@.len() - i,
    {
        assert(items@.skip(i as int).drop_first() =~= items@.skip(i + 1));
        if !have.contains(&items[i]) {
            return Some(items[i]);
        }
        i = i + 1;
    }
    None
}

fn first_present(unwanted: &EnumSet<ProtocolCapabilityFeature>, have: &EnumSet<ProtocolCapabilityFeature>) -> (r: Option<ProtocolCapabilityFeature>)
    ensures
        r == spec_first_present(unwanted@, have@),
{
    let items = unwanted.as_slice();
    let mut i: usize = 0;
    assert(items@.skip(0) =~= items@);
    while i < items.len()
        invariant
            i <= items@.len(),
            items@ == unwanted@,
            spec_first_present(unwanted@, have@) == spec_first_present(items@.skip(i as int), have@),
        decreases items@.len() - i,
    {
        assert(items@.skip(i as int).drop_first() =~= items@.skip(i + 1));
        if have.contains(&items[i]) {
            return Some(items[i]);
        }
        i = i + 1;
    }
    None
}

fn first_unnamed<'a>(entries: &'a Vec<ProtocolArtifactReference>, context: &ProtocolMaterializationContext) -> (r: Option<&'a ProtocolArtifactReference>)
    ensures
        r matches Some(e) ==> spec_first_unnamed(entries@, context.artifact_names@) == Some(*e),
        r is None ==> spec_first_unnamed(entries@, context.artifact_names@) is None,
{
    let mut i: usize = 0;
    assert(entries@.skip(0) =~= entries@);
    while i < entries.len()
        invariant
            i <= entries@.len(),
            spec_first_unnamed(entries@, context.artifact_names@) == spec_first_unnamed(entries@.skip(i as int), context.artifact_names@),
        decreases entries@.len() - i,
    {
        assert(entries@.skip(i as int).drop_first() =~= entries@.skip(i + 1));
        if context.artifact_name_for(entries[i].artifact_id.as_str()).is_none() {
            return Some(&entries[i]);
        }
        i = i + 1;
    }
    None
}

fn invalid(message: String) -> (r: Result<(), ProtocolError>)
    ensures
        spec_result_view(r) == invalid_request(message@),
{
    Err(ProtocolError::InvalidRequest { message })
}

/// `<a><b><c><d><e>`.
fn concat5(a: &str, b: &str, c: &str, d: &str, e: &str) -> (r: String)
    ensures
        r@ == a@ + b@ + c@ + d@ + e@,
{
    let mut s = String::from_str(a);
    s.append(b);
    s.append(c);
    s.append(d);
    s.append(e);
    s
}

pub fn validate_materialization_request(request: &MaterializationRequest, manifest: &PluginManifest) -> (r: Result<(), ProtocolError>)
    ensures
        spec_result_view(r) == spec_validate_request(*request, *manifest),
{
    if blank(request.artifact_id.as_str()) {
        return invalid(String::from_str("artifact_id must not be empty"));
    }
    if blank(request.logical_name.as_str()) {
        return invalid(String::from_str("logical_name must not be empty"));
    }
    if blank(request.selected_capability_id.as_str()) {
        return invalid(String::from_str("selected_capability_id must not be empty"));
    }
    let capability = match find_capability(&manifest.capabilities, request.selected_capability_id.as_str()) {
        Some(c) => c,
        None => {
            return Err(ProtocolError::UnknownCapabilityId { capability_id: request.selected_capability_id.clone() });
        },
    };
    let id = capability.capability_id.as_str();
    if capability.content_type != request.requirements.content_type {
        return invalid(concat3("selected capability '", id, "' content type does not match request requirements"));
    }
    if let Some(required_format) = request.requirements.format {
        if !capability.formats.contains(&required_format) {
            return invalid(concat5("selected capability '", id, "' does not support required format '",
                format_name(required_format), "'"));
        }
    }
    if let Some(feature) = first_missing(&request.requirements.required_features, &capability.features) {
        return invalid(concat5("selected capability '", id, "' is missing required feature '", feature_name(feature), "'"));
    }
    if let Some(feature) = first_present(&request.requirements.forbidden_features, &capability.features) {
        return invalid(concat5("selected capability '", id, "' includes forbidden feature '", feature_name(feature), "'"));
    }
    match &request.artifact_kind {
        ProtocolArtifactKind::SourceBacked(source_artifact) => {
            if source_artifact.inputs.len() == 0 {
                return invalid(String::from_str("source-backed artifact must include at least one input"));
            }
            if source_artifact.is_multi_source() && !capability.supports_multi_source() {
                return invalid(concat3("selected capability '", id, "' does not support multi-source artifacts"));
            }
        },
        ProtocolArtifactKind::Generated(ProtocolGeneratedArtifact::Playlist(playlist)) => {
            if playlist.entries.len() == 0 {
                return invalid(String::from_str("playlist artifact must include at least one entry"));
            }
            if let Some(entry) = first_unnamed(&playlist.entries, &request.context) {
                return Err(ProtocolError::MissingContext {
                    message: concat3("missing artifact name for referenced artifact '", entry.artifact_id.as_str(), "'"),
                });
            }
        },
    }
    Ok(())
}

} // verus!
