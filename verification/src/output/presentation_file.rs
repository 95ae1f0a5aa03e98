//! Versioned presentation documents: the checks that turn a parsed document into a
//! presentation specification, with a message naming the first thing that is wrong.
use vstd::prelude::*;

use crate::output::capabilities::{CapabilityFeature, ContentType, FeatureSet, Format};
use crate::output::enum_set::EnumSet;
use crate::output::presentation_spec::{ArtifactSpec, FileRuleSpec, LayoutSpec, NamingSpec, PresentationSpec, SelectSpec, SourceFormat, copy_source_formats};
use crate::policy::texts;
use crate::text::{
    blank, chars_of, concat2, concat3, decimal, decimal_string, ends_with, is_blank, spec_trim, str_ends_with, str_eq,
    string_from_range, trim,
};

verus! {

/// The only schema version this library reads.
pub const PRESENTATION_SCHEMA_VERSION: u32 = 1;

/// A named presentation specification.
#[derive(Debug, PartialEq, Eq)]
pub struct PresentationDocument {
    pub name: String,
    pub spec: PresentationSpec,
}

/// A presentation document as it was read, before it is checked.
#[derive(Debug, PartialEq, Eq)]
pub struct SerializedPresentation {
    pub version: u32,
    pub name: String,
    pub layout: SerializedLayout,
    pub files: Vec<SerializedFileRule>,
}

#[derive(Debug, PartialEq, Eq)]
pub enum SerializedLayout {
    Flat,
    GroupedByPlatformAndGame,
    LiteralRoot { path: String },
}

#[derive(Debug, PartialEq, Eq)]
pub struct SerializedFileRule {
    pub directory: Option<String>,
    pub select: SelectSpec,
    pub naming: SerializedNaming,
    pub artifact: SerializedArtifact,
    pub source_formats: Vec<SourceFormat>,
    pub excluded_source_formats: Vec<SourceFormat>,
}

#[derive(Debug, PartialEq, Eq)]
pub enum SerializedNaming {
    GameTitle,
    GameName,
    PartName,
    PlaylistName,
    SourceName,
    Literal { value: String },
}

#[derive(Debug, PartialEq, Eq)]
pub struct SerializedArtifact {
    pub content_type: ContentType,
    pub format: Option<Format>,
    pub required_features: Vec<CapabilityFeature>,
    pub preferred_features: Vec<CapabilityFeature>,
    pub forbidden_features: Vec<CapabilityFeature>,
}

pub open spec fn is_separator(c: char) -> bool {
    c == '/' || c == '\\'
}

/// The pieces of `s` between path separators, in order: one more than there are separators.
pub open spec fn raw_segments(s: Seq<char>) -> Seq<Seq<char>>
    decreases s.len(),
{
    if s.len() == 0 {
        seq![Seq::<char>::empty()]
    } else {
        let front = raw_segments(s.drop_last());
        if is_separator(s.last()) {
            front.push(Seq::<char>::empty())
        } else {
            front.update(front.len() - 1, front.last().push(s.last()))
        }
    }
}

proof fn lemma_raw_segments_nonempty(s: Seq<char>)
    ensures
        raw_segments(s).len() >= 1,
    decreases s.len(),
{
    if s.len() > 0 {
        lemma_raw_segments_nonempty(s.drop_last());
    }
}

/// The segments of a directory path, each without surrounding whitespace.
pub open spec fn path_segments(path: Seq<char>) -> Seq<Seq<char>> {
    raw_segments(path).map_values(|segment: Seq<char>| spec_trim(segment))
}

/// An empty, current (`.`) or parent (`..`) segment.
pub open spec fn bad_segment(segment: Seq<char>) -> bool {
    segment.len() == 0 || segment == "."@ || segment == ".."@
}

/// A rule's destination directory as segments, or why the path is refused.
pub open spec fn spec_parse_directory(path: Seq<char>) -> Result<Seq<Seq<char>>, Seq<char>> {
    let segments = path_segments(path);
    if is_blank(path) {
        Err("directory must not be empty"@)
    } else if is_separator(path[0]) {
        Err("directory must be a relative virtual path"@)
    } else if exists|i: int| 0 <= i < segments.len() && bad_segment(#[trigger] segments[i]) {
        Err("directory must not contain empty, current, or parent path segments"@)
    } else if ends_with(segments[0], ":"@) {
        Err("directory must not contain a drive prefix"@)
    } else {
        Ok(segments)
    }
}

pub open spec fn texts_result(r: Result<Vec<String>, String>) -> Result<Seq<Seq<char>>, Seq<char>> {
    match r {
        Ok(v) => Ok(texts(v@)),
        Err(m) => Err(m@),
    }
}

/// The pieces of `path` between separators, untrimmed.
fn split_segments(path: &str) -> (r: Vec<String>)
    ensures
        texts(r@) == raw_segments(path@),
{
    let chars = chars_of(path);
    let mut out: Vec<String> = Vec::new();
    let mut start: usize = 0;
    let mut i: usize = 0;
    proof {
        assert(texts(out@) =~= Seq::<Seq<char>>::empty());
        assert(chars@.take(0) =~= Seq::<char>::empty());
        assert(chars@.subrange(0, 0) =~= Seq::<char>::empty());
        assert(texts(out@).push(chars@.subrange(0, 0)) =~= raw_segments(chars@.take(0)));
    }
    while i < chars.len()
        invariant
            chars@ == path@,
            start <= i <= chars@.len(),
            texts(out@).push(chars@.subrange(start as int, i as int)) == raw_segments(chars@.take(i as int)),
        decreases chars@.len() - i,
    {
        let ghost b = texts(out@);
        let ghost piece_view = chars@.subrange(start as int, i as int);
        proof {
            assert(chars@.take(i + 1).drop_last() =~= chars@.take(i as int));
            assert(chars@.take(i + 1).last() == chars@[i as int]);
        }
        if chars[i] == '/' || chars[i] == '\\' {
            let piece = string_from_range(&chars, start, i);
            out.push(piece);
            proof {
                assert(texts(out@) =~= b.push(piece_view));
                assert(chars@.subrange(i + 1, i + 1) =~= Seq::<char>::empty());
            }
            start = i + 1;
            i = i + 1;
        } else {
            proof {
                let front = b.push(piece_view);
                assert(piece_view.push(chars@[i as int]) =~= chars@.subrange(start as int, i + 1));
                assert(front.update(front.len() - 1, front.last().push(chars@[i as int]))
                    =~= b.push(chars@.subrange(start as int, i + 1)));
            }
            i = i + 1;
        }
    }
    let ghost b = texts(out@);
    let last = string_from_range(&chars, start, chars.len());
    out.push(last);
    proof {
        assert(chars@.take(chars@.len() as int) =~= chars@);
        assert(texts(out@) =~= b.push(chars@.subrange(start as int, chars@.len() as int)));
    }
    out
}

/// A rule's destination directory as relative segments, each trimmed; a blank path, an
/// absolute one, a drive prefix, and empty, `.` or `..` segments are refused.
pub fn parse_virtual_directory(path: &str) -> (r: Result<Vec<String>, String>)
    ensures
        texts_result(r) == spec_parse_directory(path@),
{
    if blank(path) {
        return Err(String::from_str("directory must not be empty"));
    }
    let chars = chars_of(path);
    proof {
        if path@.len() == 0 {
            assert(is_blank(path@));
        }
    }
    if chars[0] == '/' || chars[0] == '\\' {
        return Err(String::from_str("directory must be a relative virtual path"));
    }
    let raw = split_segments(path);
    let ghost segments_spec = path_segments(path@);
    let mut segments: Vec<String> = Vec::new();
    let mut i: usize = 0;
    while i < raw.len()
        invariant
            i <= raw@.len(),
            texts(raw@) == raw_segments(path@),
            segments_spec == path_segments(path@),
            texts(segments@) == segments_spec.take(i as int),
        decreases raw@.len() - i,
    {
        let ghost before = texts(segments@);
        let piece = trim(raw[i].as_str());
        segments.push(piece);
        proof {
            assert(raw_segments(path@)[i as int] == raw@[i as int]@);
            assert(texts(segments@) =~= before.push(segments_spec[i as int]));
            assert(segments_spec.take(i + 1) =~= segments_spec.take(i as int).push(segments_spec[i as int]));
        }
        i = i + 1;
    }
    proof {
        assert(segments_spec.len() == raw@.len());
        assert(segments_spec.take(raw@.len() as int) =~= segments_spec);
        lemma_raw_segments_nonempty(path@);
    }
    let mut j: usize = 0;
    while j < segments.len()
        invariant
            j <= segments@.len(),
            texts(segments@) == segments_spec,
            segments_spec == path_segments(path@),
            path@.len() > 0,
            !is_blank(path@),
            !is_separator(path@[0]),
            forall|k: int| 0 <= k < j ==> !bad_segment(#[trigger] segments_spec[k]),
        decreases segments@.len() - j,
    {
        let segment = segments[j].as_str();
        proof {
            assert(segment@ == segments_spec[j as int]);
        }
        if segment.is_empty() || str_eq(segment, ".") || str_eq(segment, "..") {
            assert(bad_segment(segments_spec[j as int]));
            assert(!is_separator(path@[0]));
            assert(exists|k: int| 0 <= k < segments_spec.len() && bad_segment(#[trigger] segments_spec[k]));
            return Err(String::from_str("directory must not contain empty, current, or parent path segments"));
        }
        j = j + 1;
    }
    proof {
        assert(segments@[0]@ == segments_spec[0]);
    }
    if str_ends_with(segments[0].as_str(), ":") {
        return Err(String::from_str("directory must not contain a drive prefix"));
    }
    Ok(segments)
}

/// A feature's name as its `Debug` form writes it.
pub open spec fn feature_label(feature: CapabilityFeature) -> Seq<char> {
    match feature {
        CapabilityFeature::MultiSource => "MultiSource"@,
        CapabilityFeature::Streaming => "Streaming"@,
        CapabilityFeature::Lossless => "Lossless"@,
        CapabilityFeature::RandomAccess => "RandomAccess"@,
        CapabilityFeature::SupportsPartial => "SupportsPartial"@,
        CapabilityFeature::MultiFile => "MultiFile"@,
    }
}

fn feature_label_str(feature: CapabilityFeature) -> (r: &'static str)
    ensures
        r@ == feature_label(feature),
{
    match feature {
        CapabilityFeature::MultiSource => "MultiSource",
        CapabilityFeature::Streaming => "Streaming",
        CapabilityFeature::Lossless => "Lossless",
        CapabilityFeature::RandomAccess => "RandomAccess",
        CapabilityFeature::SupportsPartial => "SupportsPartial",
        CapabilityFeature::MultiFile => "MultiFile",
    }
}

/// The first feature, in declaration order, that both sets hold.
pub open spec fn common_feature(a: Set<CapabilityFeature>, b: Set<CapabilityFeature>) -> Option<CapabilityFeature> {
    if a.contains(CapabilityFeature::MultiSource) && b.contains(CapabilityFeature::MultiSource) {
        Some(CapabilityFeature::MultiSource)
    } else if a.contains(CapabilityFeature::Streaming) && b.contains(CapabilityFeature::Streaming) {
        Some(CapabilityFeature::Streaming)
    } else if a.contains(CapabilityFeature::Lossless) && b.contains(CapabilityFeature::Lossless) {
        Some(CapabilityFeature::Lossless)
    } else if a.contains(CapabilityFeature::RandomAccess) && b.contains(CapabilityFeature::RandomAccess) {
        Some(CapabilityFeature::RandomAccess)
    } else if a.contains(CapabilityFeature::SupportsPartial) && b.contains(CapabilityFeature::SupportsPartial) {
        Some(CapabilityFeature::SupportsPartial)
    } else if a.contains(CapabilityFeature::MultiFile) && b.contains(CapabilityFeature::MultiFile) {
        Some(CapabilityFeature::MultiFile)
    } else {
        None
    }
}

fn both_contain(a: &FeatureSet, b: &FeatureSet, feature: CapabilityFeature) -> (r: bool)
    ensures
        r == (a@.to_set().contains(feature) && b@.to_set().contains(feature)),
{
    a.contains(&feature) && b.contains(&feature)
}

fn first_common_feature(a: &FeatureSet, b: &FeatureSet) -> (r: Option<CapabilityFeature>)
    ensures
        r == common_feature(a@.to_set(), b@.to_set()),
{
    if both_contain(a, b, CapabilityFeature::MultiSource) {
        Some(CapabilityFeature::MultiSource)
    } else if both_contain(a, b, CapabilityFeature::Streaming) {
        Some(CapabilityFeature::Streaming)
    } else if both_contain(a, b, CapabilityFeature::Lossless) {
        Some(CapabilityFeature::Lossless)
    } else if both_contain(a, b, CapabilityFeature::RandomAccess) {
        Some(CapabilityFeature::RandomAccess)
    } else if both_contain(a, b, CapabilityFeature::SupportsPartial) {
        Some(CapabilityFeature::SupportsPartial)
    } else if both_contain(a, b, CapabilityFeature::MultiFile) {
        Some(CapabilityFeature::MultiFile)
    } else {
        None
    }
}

/// The listed features as a set.
fn feature_set(features: &Vec<CapabilityFeature>) -> (r: FeatureSet)
    ensures
        r@.to_set() == features@.to_set(),
{
    let mut set: FeatureSet = EnumSet::new();
    let mut i: usize = 0;
    assert(set@.to_set() =~= features@.take(0).to_set());
    while i < features.len()
        invariant
            i <= features@.len(),
            set@.to_set() == features@.take(i as int).to_set(),
        decreases features@.len() - i,
    {
        set.insert(features[i]);
        proof {
            assert(features@.take(i + 1) =~= features@.take(i as int).push(features@[i as int]));
            features@.take(i as int).lemma_push_to_set_commute(features@[i as int]);
        }
        i = i + 1;
    }
    assert(features@.take(features@.len() as int) =~= features@);
    set
}

/// Why an artifact's feature lists contradict each other, if they do.
pub open spec fn spec_artifact_error(artifact: SerializedArtifact) -> Option<Seq<char>> {
    let required = artifact.required_features@.to_set();
    let preferred = artifact.preferred_features@.to_set();
    let forbidden = artifact.forbidden_features@.to_set();
    match common_feature(required, forbidden) {
        Some(f) => Some("feature "@ + feature_label(f) + " cannot be both required and forbidden"@),
        None => match common_feature(preferred, forbidden) {
            Some(f) => Some("feature "@ + feature_label(f) + " cannot be both preferred and forbidden"@),
            None => None,
        },
    }
}

/// The artifact specification carries the document's type, format and feature sets.
pub open spec fn artifact_matches(artifact: SerializedArtifact, spec: ArtifactSpec) -> bool {
    &&& spec.content_type == artifact.content_type
    &&& spec.format == artifact.format
    &&& spec.required_features@.to_set() == artifact.required_features@.to_set()
    &&& spec.preferred_features@.to_set() == artifact.preferred_features@.to_set()
    &&& spec.forbidden_features@.to_set() == artifact.forbidden_features@.to_set()
}

fn into_artifact(artifact: &SerializedArtifact) -> (r: Result<ArtifactSpec, String>)
    ensures
        match r {
            Ok(spec) => spec_artifact_error(*artifact) is None && artifact_matches(*artifact, spec),
            Err(message) => spec_artifact_error(*artifact) == Some(message@),
        },
{
    let required_features = feature_set(&artifact.required_features);
    let preferred_features = feature_set(&artifact.preferred_features);
    let forbidden_features = feature_set(&artifact.forbidden_features);
    match first_common_feature(&required_features, &forbidden_features) {
        Some(feature) => {
            let message = concat3("feature ", feature_label_str(feature), " cannot be both required and forbidden");
            return Err(message);
        },
        None => {},
    }
    match first_common_feature(&preferred_features, &forbidden_features) {
        Some(feature) => {
            let message = concat3("feature ", feature_label_str(feature), " cannot be both preferred and forbidden");
            return Err(message);
        },
        None => {},
    }
    Ok(ArtifactSpec {
        content_type: artifact.content_type,
        format: artifact.format,
        required_features,
        preferred_features,
        forbidden_features,
    })
}

/// Why a naming rule is refused, if it is: a literal name must not be blank.
pub open spec fn spec_naming_error(naming: SerializedNaming) -> Option<Seq<char>> {
    match naming {
        SerializedNaming::Literal { value } => if is_blank(value@) {
            Some("naming.value must not be empty"@)
        } else {
            None
        },
        _ => None,
    }
}

pub open spec fn naming_matches(naming: SerializedNaming, spec: NamingSpec) -> bool {
    match (naming, spec) {
        (SerializedNaming::GameTitle, NamingSpec::GameTitle) => true,
        (SerializedNaming::GameName, NamingSpec::GameName) => true,
        (SerializedNaming::PartName, NamingSpec::PartName) => true,
        (SerializedNaming::PlaylistName, NamingSpec::PlaylistName) => true,
        (SerializedNaming::SourceName, NamingSpec::SourceName) => true,
        (SerializedNaming::Literal { value }, NamingSpec::Literal(name)) => name@ == value@,
        _ => false,
    }
}

fn into_naming(naming: &SerializedNaming) -> (r: Result<NamingSpec, String>)
    ensures
        match r {
            Ok(spec) => spec_naming_error(*naming) is None && naming_matches(*naming, spec),
            Err(message) => spec_naming_error(*naming) == Some(message@),
        },
{
    match naming {
        SerializedNaming::GameTitle => Ok(NamingSpec::GameTitle),
        SerializedNaming::GameName => Ok(NamingSpec::GameName),
        SerializedNaming::PartName => Ok(NamingSpec::PartName),
        SerializedNaming::PlaylistName => Ok(NamingSpec::PlaylistName),
        SerializedNaming::SourceName => Ok(NamingSpec::SourceName),
        SerializedNaming::Literal { value } => if blank(value.as_str()) {
            Err(String::from_str("naming.value must not be empty"))
        } else {
            Ok(NamingSpec::Literal(value.clone()))
        },
    }
}

/// A rule's destination directory: none when it names no directory.
pub open spec fn rule_directory(rule: SerializedFileRule) -> Result<Seq<Seq<char>>, Seq<char>> {
    match rule.directory {
        Some(path) => spec_parse_directory(path@),
        None => Ok(Seq::empty()),
    }
}

/// Why a rule is refused, if it is: its directory first, then its naming, then its artifact.
pub open spec fn spec_rule_error(rule: SerializedFileRule) -> Option<Seq<char>> {
    match rule_directory(rule) {
        Err(message) => Some(message),
        Ok(_) => match spec_naming_error(rule.naming) {
            Some(message) => Some(message),
            None => spec_artifact_error(rule.artifact),
        },
    }
}

pub open spec fn rule_matches(rule: SerializedFileRule, spec: FileRuleSpec) -> bool {
    &&& rule_directory(rule) == Ok::<Seq<Seq<char>>, Seq<char>>(texts(spec.directory@))
    &&& spec.select == rule.select
    &&& naming_matches(rule.naming, spec.naming)
    &&& artifact_matches(rule.artifact, spec.artifact)
    &&& spec.source_formats@ == rule.source_formats@
    &&& spec.excluded_source_formats@ == rule.excluded_source_formats@
}

fn into_rule(rule: &SerializedFileRule) -> (r: Result<FileRuleSpec, String>)
    ensures
        match r {
            Ok(spec) => spec_rule_error(*rule) is None && rule_matches(*rule, spec),
            Err(message) => spec_rule_error(*rule) == Some(message@),
        },
{
    let directory = match &rule.directory {
        Some(path) => match parse_virtual_directory(path.as_str()) {
            Ok(segments) => segments,
            Err(message) => {
                return Err(message);
            },
        },
        None => {
            let empty: Vec<String> = Vec::new();
            assert(texts(empty@) =~= Seq::<Seq<char>>::empty());
            empty
        },
    };
    let naming = match into_naming(&rule.naming) {
        Ok(naming) => naming,
        Err(message) => {
            return Err(message);
        },
    };
    let artifact = match into_artifact(&rule.artifact) {
        Ok(artifact) => artifact,
        Err(message) => {
            return Err(message);
        },
    };
    Ok(FileRuleSpec {
        directory,
        select: rule.select,
        naming,
        artifact,
        source_formats: copy_source_formats(&rule.source_formats),
        excluded_source_formats: copy_source_formats(&rule.excluded_source_formats),
    })
}

/// The index and message of the first refused rule, if any.
pub open spec fn first_rule_error(rules: Seq<SerializedFileRule>) -> Option<(nat, Seq<char>)>
    decreases rules.len(),
{
    if rules.len() == 0 {
        None
    } else {
        match first_rule_error(rules.drop_last()) {
            Some(found) => Some(found),
            None => match spec_rule_error(rules.last()) {
                Some(message) => Some(((rules.len() - 1) as nat, message)),
                None => None,
            },
        }
    }
}

pub open spec fn layout_matches(layout: SerializedLayout, spec: LayoutSpec) -> bool {
    match (layout, spec) {
        (SerializedLayout::Flat, LayoutSpec::Flat) => true,
        (SerializedLayout::GroupedByPlatformAndGame, LayoutSpec::GroupedByPlatformAndGame) => true,
        (SerializedLayout::LiteralRoot { path }, LayoutSpec::LiteralRoot(root)) => root@ == path@,
        _ => false,
    }
}

/// Why a document is refused, if it is: the first failed check, in the order version,
/// name, rules present, layout, each rule in turn.
pub open spec fn spec_document_error(document: SerializedPresentation) -> Option<Seq<char>> {
    if document.version != PRESENTATION_SCHEMA_VERSION {
        Some("unsupported schema version "@ + decimal(document.version as nat) + "; expected 1"@)
    } else if is_blank(document.name@) {
        Some("name must not be empty"@)
    } else if document.files@.len() == 0 {
        Some("files must contain at least one rule"@)
    } else if document.layout matches SerializedLayout::LiteralRoot { path } && is_blank(path@) {
        Some("layout.path must not be empty"@)
    } else {
        match first_rule_error(document.files@) {
            Some((index, message)) => Some("files["@ + decimal(index) + "]: "@ + message),
            None => None,
        }
    }
}

/// The accepted document: its name trimmed, its layout, and one rule per document rule.
pub open spec fn document_matches(document: SerializedPresentation, result: PresentationDocument) -> bool {
    &&& result.name@ == spec_trim(document.name@)
    &&& layout_matches(document.layout, result.spec.layout)
    &&& result.spec.files@.len() == document.files@.len()
    &&& forall|i: int| 0 <= i < document.files@.len() ==> rule_matches(#[trigger] document.files@[i], result.spec.files@[i])
}

/// Checks a parsed presentation document and turns it into a named specification.
pub fn document_from_serialized(document: &SerializedPresentation) -> (r: Result<PresentationDocument, String>)
    ensures
        (r is Ok) == (spec_document_error(*document) is None),
        r matches Err(message) ==> spec_document_error(*document) == Some(message@),
        r matches Ok(result) ==> document_matches(*document, result),
{
    if document.version != PRESENTATION_SCHEMA_VERSION {
        let version = decimal_string(document.version as u64);
        let message = concat3("unsupported schema version ", version.as_str(), "; expected 1");
        return Err(message);
    }
    let name = trim(document.name.as_str());
    if blank(document.name.as_str()) {
        return Err(String::from_str("name must not be empty"));
    }
    if document.files.len() == 0 {
        return Err(String::from_str("files must contain at least one rule"));
    }
    let layout = match &document.layout {
        SerializedLayout::Flat => LayoutSpec::Flat,
        SerializedLayout::GroupedByPlatformAndGame => LayoutSpec::GroupedByPlatformAndGame,
        SerializedLayout::LiteralRoot { path } => {
            if blank(path.as_str()) {
                return Err(String::from_str("layout.path must not be empty"));
            }
            LayoutSpec::LiteralRoot(path.clone())
        },
    };
    let mut files: Vec<FileRuleSpec> = Vec::new();
    let mut i: usize = 0;
    while i < document.files.len()
        invariant
            i <= document.files@.len(),
            files@.len() == i,
            document.version == PRESENTATION_SCHEMA_VERSION,
            !is_blank(document.name@),
            document.files@.len() > 0,
            !(document.layout matches SerializedLayout::LiteralRoot { path } && is_blank(path@)),
            first_rule_error(document.files@.take(i as int)) is None,
            forall|k: int| 0 <= k < i ==> rule_matches(#[trigger] document.files@[k], files@[k]),
        decreases document.files@.len() - i,
    {
        proof {
            assert(document.files@.take(i + 1).drop_last() =~= document.files@.take(i as int));
        }
        match into_rule(&document.files[i]) {
            Ok(rule) => {
                files.push(rule);
            },
            Err(message) => {
                let index = decimal_string(i as u64);
                let prefix = concat3("files[", index.as_str(), "]: ");
                let full = concat2(prefix.as_str(), message.as_str());
                proof {
                    lemma_first_rule_error_prefix(document.files@, (i + 1) as int);
                }
                return Err(full);
            },
        }
        i = i + 1;
    }
    proof {
        assert(document.files@.take(document.files@.len() as int) =~= document.files@);
    }
    Ok(PresentationDocument { name, spec: PresentationSpec::new(layout, files) })
}

/// The first refused rule of a prefix that holds one is the first refused rule of the whole.
proof fn lemma_first_rule_error_prefix(rules: Seq<SerializedFileRule>, n: int)
    requires
        0 <= n <= rules.len(),
        first_rule_error(rules.take(n)) is Some,
    ensures
        first_rule_error(rules) == first_rule_error(rules.take(n)),
    decreases rules.len() - n,
{
    if n < rules.len() {
        assert(rules.take(n + 1).drop_last() =~= rules.take(n));
        lemma_first_rule_error_prefix(rules, n + 1);
    } else {
        assert(rules.take(n) =~= rules);
    }
}

} // verus!
