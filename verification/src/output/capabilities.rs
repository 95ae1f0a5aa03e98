//! What encoders can produce and what artifacts require of them.
use vstd::prelude::*;

use crate::output::enum_set::{EnumSet, Ranked};
use crate::text::IntoText;

verus! {

#[derive(Debug, Clone, Copy, PartialEq, Eq, PartialOrd, Ord, Hash, Structural)]
pub enum ContentType {
    Rom,
    Disc,
    Playlist,
    Archive,
    Directory,
    Bytes,
    Text,
    Game,
}

#[derive(Debug, Clone, Copy, PartialEq, Eq, PartialOrd, Ord, Hash, Structural)]
pub enum Format {
    Iso,
    Chd,
    Zip,
    M3u,
    Directory,
    Bin,
    CueBin,
    Text,
}

#[derive(Debug, Clone, Copy, PartialEq, Eq, PartialOrd, Ord, Hash, Structural)]
pub enum CapabilityFeature {
    MultiSource,
    Streaming,
    Lossless,
    RandomAccess,
    SupportsPartial,
    MultiFile,
}

impl Ranked for Format {
    open spec fn rank(self) -> nat {
        match self {
            Format::Iso => 0,
            Format::Chd => 1,
            Format::Zip => 2,
            Format::M3u => 3,
            Format::Directory => 4,
            Format::Bin => 5,
            Format::CueBin => 6,
            Format::Text => 7,
        }
    }

    fn rank_of(&self) -> (r: u8) {
        match self {
            Format::Iso => 0,
            Format::Chd => 1,
            Format::Zip => 2,
            Format::M3u => 3,
            Format::Directory => 4,
            Format::Bin => 5,
            Format::CueBin => 6,
            Format::Text => 7,
        }
    }

    proof fn lemma_rank_injective(a: Self, b: Self) {
    }
}

impl Ranked for CapabilityFeature {
    open spec fn rank(self) -> nat {
        match self {
            CapabilityFeature::MultiSource => 0,
            CapabilityFeature::Streaming => 1,
            CapabilityFeature::Lossless => 2,
            CapabilityFeature::RandomAccess => 3,
            CapabilityFeature::SupportsPartial => 4,
            CapabilityFeature::MultiFile => 5,
        }
    }

    fn rank_of(&self) -> (r: u8) {
        match self {
            CapabilityFeature::MultiSource => 0,
            CapabilityFeature::Streaming => 1,
            CapabilityFeature::Lossless => 2,
            CapabilityFeature::RandomAccess => 3,
            CapabilityFeature::SupportsPartial => 4,
            CapabilityFeature::MultiFile => 5,
        }
    }

    proof fn lemma_rank_injective(a: Self, b: Self) {
    }
}

pub type FeatureSet = EnumSet<CapabilityFeature>;

pub type FormatSet = EnumSet<Format>;

#[derive(Debug, PartialEq, Eq)]
pub struct CapabilityRequirements {
    pub content_type: ContentType,
    pub format: Option<Format>,
    pub required_features: FeatureSet,
    pub preferred_features: FeatureSet,
    pub forbidden_features: FeatureSet,
}

impl CapabilityRequirements {
    /// Equality of all fields, sets compared by contents.
    pub open spec fn same(self, other: CapabilityRequirements) -> bool {
        &&& self.content_type == other.content_type
        &&& self.format == other.format
        &&& self.required_features@ == other.required_features@
        &&& self.preferred_features@ == other.preferred_features@
        &&& self.forbidden_features@ == other.forbidden_features@
    }

    pub fn new(content_type: ContentType) -> (r: Self)
        ensures
            r.content_type == content_type,
            r.format is None,
            r.required_features@ == Seq::<CapabilityFeature>::empty(),
            r.preferred_features@ == Seq::<CapabilityFeature>::empty(),
            r.forbidden_features@ == Seq::<CapabilityFeature>::empty(),
    {
        CapabilityRequirements {
            content_type,
            format: None,
            required_features: EnumSet::new(),
            preferred_features: EnumSet::new(),
            forbidden_features: EnumSet::new(),
        }
    }

    pub fn with_format(self, format: Format) -> (r: Self)
        ensures
            r.format == Some(format),
            r.content_type == self.content_type,
            r.required_features@ == self.required_features@,
            r.preferred_features@ == self.preferred_features@,
            r.forbidden_features@ == self.forbidden_features@,
    {
        let mut r = self;
        r.format = Some(format);
        r
    }

    pub fn require_feature(self, feature: CapabilityFeature) -> (r: Self)
        ensures
            r.required_features@.to_set() == self.required_features@.to_set().insert(feature),
            r.content_type == self.content_type,
            r.format == self.format,
            r.preferred_features@ == self.preferred_features@,
            r.forbidden_features@ == self.forbidden_features@,
    {
        let mut r = self;
        r.required_features.insert(feature);
        r
    }

    pub fn prefer_feature(self, feature: CapabilityFeature) -> (r: Self)
        ensures
            r.preferred_features@.to_set() == self.preferred_features@.to_set().insert(feature),
            r.content_type == self.content_type,
            r.format == self.format,
            r.required_features@ == self.required_features@,
            r.forbidden_features@ == self.forbidden_features@,
    {
        let mut r = self;
        r.preferred_features.insert(feature);
        r
    }

    pub fn forbid_feature(self, feature: CapabilityFeature) -> (r: Self)
        ensures
            r.forbidden_features@.to_set() == self.forbidden_features@.to_set().insert(feature),
            r.content_type == self.content_type,
            r.format == self.format,
            r.required_features@ == self.required_features@,
            r.preferred_features@ == self.preferred_features@,
    {
        let mut r = self;
        r.forbidden_features.insert(feature);
        r
    }
}

impl Clone for CapabilityRequirements {
    fn clone(&self) -> (r: Self)
        ensures
            r.same(*self),
    {
        CapabilityRequirements {
            content_type: self.content_type,
            format: self.format,
            required_features: self.required_features.clone(),
            preferred_features: self.preferred_features.clone(),
            forbidden_features: self.forbidden_features.clone(),
        }
    }
}

#[derive(Debug, PartialEq, Eq)]
pub struct EncoderCapability {
    pub plugin_id: String,
    pub capability_id: String,
    pub content_type: ContentType,
    pub formats: FormatSet,
    pub features: FeatureSet,
    pub priority: u32,
}

impl EncoderCapability {
    /// Equality of all fields, sets compared by contents.
    pub open spec fn same(self, other: EncoderCapability) -> bool {
        &&& self.plugin_id@ == other.plugin_id@
        &&& self.capability_id@ == other.capability_id@
        &&& self.content_type == other.content_type
        &&& self.formats@ == other.formats@
        &&& self.features@ == other.features@
        &&& self.priority == other.priority
    }

    pub fn new<P: IntoText, C: IntoText>(plugin_id: P, capability_id: C, content_type: ContentType) -> (r: Self)
        ensures
            r.plugin_id@ == plugin_id.text(),
            r.capability_id@ == capability_id.text(),
            r.content_type == content_type,
            r.formats@ == Seq::<Format>::empty(),
            r.features@ == Seq::<CapabilityFeature>::empty(),
            r.priority == 0,
    {
        EncoderCapability {
            plugin_id: plugin_id.into_text(),
            capability_id: capability_id.into_text(),
            content_type,
            formats: EnumSet::new(),
            features: EnumSet::new(),
            priority: 0,
        }
    }

    pub fn supports_format(self, format: Format) -> (r: Self)
        ensures
            r.formats@.to_set() == self.formats@.to_set().insert(format),
            self.formats@.len() == 0 ==> r.formats@ == seq![format],
            r.plugin_id == self.plugin_id,
            r.capability_id == self.capability_id,
            r.content_type == self.content_type,
            r.features@ == self.features@,
            r.priority == self.priority,
    {
        let mut r = self;
        r.formats.insert(format);
        r
    }

    pub fn with_feature(self, feature: CapabilityFeature) -> (r: Self)
        ensures
            r.features@.to_set() == self.features@.to_set().insert(feature),
            self.features@.len() == 0 ==> r.features@ == seq![feature],
            r.plugin_id == self.plugin_id,
            r.capability_id == self.capability_id,
            r.content_type == self.content_type,
            r.formats@ == self.formats@,
            r.priority == self.priority,
    {
        let mut r = self;
        r.features.insert(feature);
        r
    }

    pub fn with_priority(self, priority: u32) -> (r: Self)
        ensures
            r.priority == priority,
            r.plugin_id == self.plugin_id,
            r.capability_id == self.capability_id,
            r.content_type == self.content_type,
            r.formats@ == self.formats@,
            r.features@ == self.features@,
    {
        let mut r = self;
        r.priority = priority;
        r
    }

    pub fn supports_multi_source(&self) -> (r: bool)
        ensures
            r == self.features@.contains(CapabilityFeature::MultiSource),
    {
        self.features.contains(&CapabilityFeature::MultiSource)
    }
}

impl Clone for EncoderCapability {
    fn clone(&self) -> (r: Self)
        ensures
            r.same(*self),
    {
        EncoderCapability {
            plugin_id: self.plugin_id.clone(),
            capability_id: self.capability_id.clone(),
            content_type: self.content_type,
            formats: self.formats.clone(),
            features: self.features.clone(),
            priority: self.priority,
        }
    }
}

} // verus!
