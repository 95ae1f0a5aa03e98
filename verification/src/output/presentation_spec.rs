//! Declarative presentation specifications: the desired output structure and the
//! requirements of its artifacts, as data that is later compiled into a plan.
use vstd::prelude::*;

use crate::model::content::{DiscMedia, Platform};
use crate::output::capabilities::{CapabilityFeature, ContentType, FeatureSet, Format};
use crate::output::enum_set::EnumSet;
use crate::text::IntoText;

verus! {

#[derive(Debug, PartialEq, Eq)]
pub struct PresentationSpec {
    pub layout: LayoutSpec,
    pub files: Vec<FileRuleSpec>,
}

impl PresentationSpec {
    pub fn new(layout: LayoutSpec, files: Vec<FileRuleSpec>) -> (r: Self)
        ensures
            r.layout == layout,
            r.files == files,
    {
        PresentationSpec { layout, files }
    }
}

#[derive(Debug, PartialEq, Eq)]
pub enum LayoutSpec {
    Flat,
    GroupedByPlatformAndGame,
    LiteralRoot(String),
}

/// The format of a game part's source, as its extension names it.
#[derive(Debug, Clone, Copy, PartialEq, Eq, Structural)]
pub enum SourceFormat {
    Chd,
    Iso,
    Cue,
    Bin,
    Zip,
}

/// A copy of a list of source formats.
pub fn copy_source_formats(formats: &Vec<SourceFormat>) -> (r: Vec<SourceFormat>)
    ensures
        r@ == formats@,
{
    let mut out: Vec<SourceFormat> = Vec::new();
    let mut i: usize = 0;
    while i < formats.len()
        invariant
            i <= formats@.len(),
            out@ == formats@.take(i as int),
        decreases formats@.len() - i,
    {
        out.push(formats[i]);
        i = i + 1;
        assert(out@ =~= formats@.take(i as int));
    }
    assert(formats@.take(formats@.len() as int) =~= formats@);
    out
}

/// A file rule: which content it selects, where its files go, how they are named, what
/// artifact they carry, and which source formats a selected game's parts must (or must
/// not) have.
#[derive(Debug, PartialEq, Eq)]
pub struct FileRuleSpec {
    pub directory: Vec<String>,
    pub select: SelectSpec,
    pub naming: NamingSpec,
    pub artifact: ArtifactSpec,
    /// When not empty, every part of a selected game must have one of these formats.
    pub source_formats: Vec<SourceFormat>,
    /// No part of a selected game may have one of these formats.
    pub excluded_source_formats: Vec<SourceFormat>,
}

impl FileRuleSpec {
    pub fn new(select: SelectSpec, naming: NamingSpec, artifact: ArtifactSpec) -> (r: Self)
        ensures
            r.directory@.len() == 0,
            r.select == select,
            r.naming == naming,
            r.artifact == artifact,
            r.source_formats@.len() == 0,
            r.excluded_source_formats@.len() == 0,
    {
        FileRuleSpec {
            directory: Vec::new(),
            select,
            naming,
            artifact,
            source_formats: Vec::new(),
            excluded_source_formats: Vec::new(),
        }
    }

    /// The same rule, admitting only games whose parts all have one of `formats`.
    pub fn with_source_formats(self, formats: Vec<SourceFormat>) -> (r: Self)
        ensures
            r.directory == self.directory,
            r.select == self.select,
            r.naming == self.naming,
            r.artifact == self.artifact,
            r.source_formats@ == formats@,
            r.excluded_source_formats == self.excluded_source_formats,
    {
        FileRuleSpec { source_formats: formats, ..self }
    }

    /// The same rule, refusing games with a part of one of `formats`.
    pub fn excluding_source_formats(self, formats: Vec<SourceFormat>) -> (r: Self)
        ensures
            r.directory == self.directory,
            r.select == self.select,
            r.naming == self.naming,
            r.artifact == self.artifact,
            r.source_formats == self.source_formats,
            r.excluded_source_formats@ == formats@,
    {
        FileRuleSpec { excluded_source_formats: formats, ..self }
    }

    /// The same rule, placing its files under the given directory path.
    pub fn in_directory(self, directory: &[&str]) -> (r: Self)
        ensures
            r.directory@.len() == directory@.len(),
            forall|i: int| 0 <= i < directory@.len() ==> (#[trigger] r.directory@[i])@ == directory@[i]@,
            r.select == self.select,
            r.naming == self.naming,
            r.artifact == self.artifact,
            r.source_formats == self.source_formats,
            r.excluded_source_formats == self.excluded_source_formats,
    {
        let mut names: Vec<String> = Vec::new();
        let mut i: usize = 0;
        while i < directory.len()
            invariant
                i <= directory@.len(),
                names@.len() == i,
                forall|j: int| 0 <= j < i ==> (#[trigger] names@[j])@ == directory@[j]@,
            decreases directory@.len() - i,
        {
            names.push(directory[i].into_text());
            i = i + 1;
        }
        FileRuleSpec { directory: names, ..self }
    }
}

#[derive(Debug, Clone, Copy, PartialEq, Eq, Structural)]
pub enum SelectSpec {
    /// Any normalized game.
    Games,
    /// Games that contain no parts.
    GamesWithoutParts,
    /// Games with exactly one disc part.
    SingleDiscGames,
    /// Single-disc games of one platform.
    SingleDiscGamesByPlatform { platform: Platform },
    /// Single-disc games of one platform whose logical disc is of one media kind.
    SingleDiscGamesByPlatformAndMedia { platform: Platform, media: DiscMedia },
    /// Games made entirely of several disc parts.
    MultiDiscGames,
    /// Multi-disc games of one platform.
    MultiDiscGamesByPlatform { platform: Platform },
    /// Games with exactly one ROM part.
    SingleRomGames,
    /// Normalized bytes content.
    Bytes,
    /// Normalized text content.
    Text,
}

#[derive(Debug, PartialEq, Eq)]
pub enum NamingSpec {
    /// The game title.
    GameTitle,
    /// The policy's game name.
    GameName,
    /// The policy's part name of a single-part game.
    PartName,
    /// The policy's playlist name of a game.
    PlaylistName,
    /// The name of the content's source file.
    SourceName,
    /// A fixed file name.
    Literal(String),
}

#[derive(Debug, PartialEq, Eq)]
pub struct ArtifactSpec {
    pub content_type: ContentType,
    pub format: Option<Format>,
    pub required_features: FeatureSet,
    pub preferred_features: FeatureSet,
    pub forbidden_features: FeatureSet,
}

impl ArtifactSpec {
    pub fn new(content_type: ContentType) -> (r: Self)
        ensures
            r.content_type == content_type,
            r.format is None,
            r.required_features@.len() == 0,
            r.preferred_features@.len() == 0,
            r.forbidden_features@.len() == 0,
    {
        ArtifactSpec {
            content_type,
            format: None,
            required_features: EnumSet::new(),
            preferred_features: EnumSet::new(),
            forbidden_features: EnumSet::new(),
        }
    }

    pub fn with_format(self, format: Format) -> (r: Self)
        ensures
            r.format == Some(format),
            r.content_type == self.content_type,
            r.required_features@ == self.required_features@,
            r.preferred_features@ == self.preferred_features@,
            r.forbidden_features@ == self.forbidden_features@,
    {
        let mut r = self;
        r.format = Some(format);
        r
    }

    pub fn require_feature(self, feature: CapabilityFeature) -> (r: Self)
        ensures
            r.required_features@.to_set() == self.required_features@.to_set().insert(feature),
            r.content_type == self.content_type,
            r.format == self.format,
            r.preferred_features@ == self.preferred_features@,
            r.forbidden_features@ == self.forbidden_features@,
    {
        let mut r = self;
        r.required_features.insert(feature);
        r
    }

    pub fn prefer_feature(self, feature: CapabilityFeature) -> (r: Self)
        ensures
            r.preferred_features@.to_set() == self.preferred_features@.to_set().insert(feature),
            r.content_type == self.content_type,
            r.format == self.format,
            r.required_features@ == self.required_features@,
            r.forbidden_features@ == self.forbidden_features@,
    {
        let mut r = self;
        r.preferred_features.insert(feature);
        r
    }

    pub fn forbid_feature(self, feature: CapabilityFeature) -> (r: Self)
        ensures
            r.forbidden_features@.to_set() == self.forbidden_features@.to_set().insert(feature),
            r.content_type == self.content_type,
            r.format == self.format,
            r.required_features@ == self.required_features@,
            r.preferred_features@ == self.preferred_features@,
    {
        let mut r = self;
        r.forbidden_features.insert(feature);
        r
    }
}

} // verus!
