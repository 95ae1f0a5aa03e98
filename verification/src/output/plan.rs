//! Presentation plans: the declarative tree of files and the artifacts behind them.
use vstd::prelude::*;

use crate::model::cd::CdDisc;
use crate::model::content::LogicalDisc;
use crate::model::source::SourceRef;
use crate::output::capabilities::CapabilityRequirements;
use crate::text::{concat3, IntoText};

verus! {

#[derive(Debug, PartialEq, Eq)]
pub struct PresentationPlan {
    pub entries: Vec<PlanEntry>,
}

impl PresentationPlan {
    pub fn new(entries: Vec<PlanEntry>) -> (r: Self)
        ensures
            r.entries == entries,
    {
        PresentationPlan { entries }
    }

    pub fn empty() -> (r: Self)
        ensures
            r.entries@ == Seq::<PlanEntry>::empty(),
    {
        PresentationPlan { entries: Vec::new() }
    }
}

#[derive(Debug, PartialEq, Eq)]
pub enum PlanEntry {
    Directory(PlanDirectory),
    File(PlanFile),
    ArtifactSet(PlanArtifactSet),
}

/// The name an entry occupies in its directory.
pub open spec fn spec_entry_name(entry: PlanEntry) -> Seq<char> {
    match entry {
        PlanEntry::Directory(d) => d.name@,
        PlanEntry::File(f) => f.name@,
        PlanEntry::ArtifactSet(s) => s.directory_name@,
    }
}

/// A directory holding the members that one artifact materializes into.
#[derive(Debug, PartialEq, Eq)]
pub struct PlanArtifactSet {
    pub directory_name: String,
    pub artifact_name: String,
    pub primary_extension: String,
    pub artifact: ArtifactRequest,
}

impl PlanArtifactSet {
    pub fn new<D: IntoText, A: IntoText, E: IntoText>(
        directory_name: D,
        artifact_name: A,
        primary_extension: E,
        artifact: ArtifactRequest,
    ) -> (r: Self)
        ensures
            r.directory_name@ == directory_name.text(),
            r.artifact_name@ == artifact_name.text(),
            r.primary_extension@ == primary_extension.text(),
            r.artifact == artifact,
    {
        PlanArtifactSet {
            directory_name: directory_name.into_text(),
            artifact_name: artifact_name.into_text(),
            primary_extension: primary_extension.into_text(),
            artifact,
        }
    }

    /// `<artifact_name>.<primary_extension>`.
    pub fn primary_file_name(&self) -> (r: String)
        ensures
            r@ == self.artifact_name@ + seq!['.'] + self.primary_extension@,
    {
        proof {
            reveal_strlit(".");
        }
        concat3(self.artifact_name.as_str(), ".", self.primary_extension.as_str())
    }
}

#[derive(Debug, PartialEq, Eq)]
pub struct PlanDirectory {
    pub name: String,
    pub entries: Vec<PlanEntry>,
}

impl PlanDirectory {
    pub fn new<S: IntoText>(name: S, entries: Vec<PlanEntry>) -> (r: Self)
        ensures
            r.name@ == name.text(),
            r.entries == entries,
    {
        PlanDirectory { name: name.into_text(), entries }
    }
}

#[derive(Debug, PartialEq, Eq)]
pub struct PlanFile {
    pub name: String,
    pub artifact: ArtifactRequest,
}

impl PlanFile {
    pub fn new<S: IntoText>(name: S, artifact: ArtifactRequest) -> (r: Self)
        ensures
            r.name@ == name.text(),
            r.artifact == artifact,
    {
        PlanFile { name: name.into_text(), artifact }
    }
}

#[derive(Debug, PartialEq, Eq, PartialOrd, Ord, Hash)]
pub struct ArtifactId(pub String);

impl Clone for ArtifactId {
    fn clone(&self) -> (r: Self)
        ensures
            r == *self,
    {
        ArtifactId(self.0.clone())
    }
}

impl ArtifactId {
    pub fn new<S: IntoText>(value: S) -> (r: Self)
        ensures
            r.0@ == value.text(),
    {
        ArtifactId(value.into_text())
    }
}

#[derive(Debug, PartialEq, Eq)]
pub struct ArtifactRequest {
    pub id: ArtifactId,
    pub kind: PlannedArtifactKind,
    pub requirements: CapabilityRequirements,
}

impl ArtifactRequest {
    pub fn new(id: ArtifactId, kind: PlannedArtifactKind, requirements: CapabilityRequirements) -> (r: Self)
        ensures
            r.id == id,
            r.kind == kind,
            r.requirements == requirements,
    {
        ArtifactRequest { id, kind, requirements }
    }

    /// Equality by contents.
    pub open spec fn same(self, other: ArtifactRequest) -> bool {
        &&& self.id == other.id
        &&& self.kind.same(other.kind)
        &&& self.requirements.same(other.requirements)
    }
}

impl Clone for ArtifactRequest {
    fn clone(&self) -> (r: Self)
        ensures
            r.same(*self),
    {
        ArtifactRequest { id: self.id.clone(), kind: self.kind.clone(), requirements: self.requirements.clone() }
    }
}

#[derive(Debug, PartialEq, Eq)]
pub enum PlannedArtifactKind {
    SourceBacked(SourceArtifact),
    ContentBacked(ContentArtifact),
    Generated(GeneratedArtifact),
}

impl PlannedArtifactKind {
    /// Equality by contents.
    pub open spec fn same(self, other: PlannedArtifactKind) -> bool {
        match (self, other) {
            (PlannedArtifactKind::SourceBacked(a), PlannedArtifactKind::SourceBacked(b)) => a.inputs@ == b.inputs@,
            (PlannedArtifactKind::ContentBacked(a), PlannedArtifactKind::ContentBacked(b)) => a.same(b),
            (PlannedArtifactKind::Generated(GeneratedArtifact::Playlist(a)), PlannedArtifactKind::Generated(GeneratedArtifact::Playlist(b))) => a.entries@ == b.entries@,
            _ => false,
        }
    }
}

impl Clone for PlannedArtifactKind {
    fn clone(&self) -> (r: Self)
        ensures
            r.same(*self),
    {
        match self {
            PlannedArtifactKind::SourceBacked(a) => PlannedArtifactKind::SourceBacked(a.clone()),
            PlannedArtifactKind::ContentBacked(a) => PlannedArtifactKind::ContentBacked(a.clone()),
            PlannedArtifactKind::Generated(GeneratedArtifact::Playlist(p)) => PlannedArtifactKind::Generated(
                GeneratedArtifact::Playlist(p.clone()),
            ),
        }
    }
}

#[derive(Debug, PartialEq, Eq)]
pub enum ContentArtifact {
    LogicalDisc(LogicalDisc),
    CdDisc(CdDisc),
}

impl ContentArtifact {
    /// Equality by contents.
    pub open spec fn same(self, other: ContentArtifact) -> bool {
        match (self, other) {
            (ContentArtifact::LogicalDisc(a), ContentArtifact::LogicalDisc(b)) => a == b,
            (ContentArtifact::CdDisc(a), ContentArtifact::CdDisc(b)) => a.same(b),
            _ => false,
        }
    }

    pub fn logical_disc(logical_disc: LogicalDisc) -> (r: Self)
        ensures
            r == ContentArtifact::LogicalDisc(logical_disc),
    {
        ContentArtifact::LogicalDisc(logical_disc)
    }

    pub fn cd_disc(cd_disc: CdDisc) -> (r: Self)
        ensures
            r == ContentArtifact::CdDisc(cd_disc),
    {
        ContentArtifact::CdDisc(cd_disc)
    }
}

impl Clone for ContentArtifact {
    fn clone(&self) -> (r: Self)
        ensures
            r.same(*self),
    {
        match self {
            ContentArtifact::LogicalDisc(d) => ContentArtifact::LogicalDisc(d.clone()),
            ContentArtifact::CdDisc(d) => ContentArtifact::CdDisc(d.clone()),
        }
    }
}

#[derive(Debug, PartialEq, Eq)]
pub struct SourceArtifact {
    pub inputs: Vec<SourceArtifactInput>,
}

impl SourceArtifact {
    pub fn single(source: SourceRef, size: u64) -> (r: Self)
        ensures
            r.inputs@ == seq![SourceArtifactInput { source, size }],
    {
        let mut inputs = Vec::new();
        inputs.push(SourceArtifactInput { source, size });
        SourceArtifact { inputs }
    }

    pub fn multiple(inputs: Vec<SourceArtifactInput>) -> (r: Self)
        ensures
            r.inputs == inputs,
    {
        SourceArtifact { inputs }
    }

    pub fn is_multi_source(&self) -> (r: bool)
        ensures
            r == (self.inputs@.len() > 1),
    {
        self.inputs.len() > 1
    }
}

impl Clone for SourceArtifact {
    fn clone(&self) -> (r: Self)
        ensures
            r.inputs@ == self.inputs@,
    {
        let mut inputs: Vec<SourceArtifactInput> = Vec::new();
        let mut i: usize = 0;
        while i < self.inputs.len()
            invariant
                i <= self.inputs@.len(),
                inputs@ == self.inputs@.take(i as int),
            decreases self.inputs@.len() - i,
        {
            inputs.push(self.inputs[i].clone());
            i = i + 1;
            assert(inputs@ =~= self.inputs@.take(i as int));
        }
        assert(inputs@ =~= self.inputs@);
        SourceArtifact { inputs }
    }
}

#[derive(Debug, PartialEq, Eq)]
pub struct SourceArtifactInput {
    pub source: SourceRef,
    pub size: u64,
}

impl Clone for SourceArtifactInput {
    fn clone(&self) -> (r: Self)
        ensures
            r == *self,
    {
        SourceArtifactInput { source: self.source.clone(), size: self.size }
    }
}

#[derive(Debug, PartialEq, Eq)]
pub enum GeneratedArtifact {
    Playlist(PlaylistArtifact),
}

#[derive(Debug, PartialEq, Eq)]
pub struct PlaylistArtifact {
    pub entries: Vec<ArtifactReference>,
}

impl PlaylistArtifact {
    pub fn new(entries: Vec<ArtifactReference>) -> (r: Self)
        ensures
            r.entries == entries,
    {
        PlaylistArtifact { entries }
    }
}

impl Clone for PlaylistArtifact {
    fn clone(&self) -> (r: Self)
        ensures
            r.entries@ == self.entries@,
    {
        let mut entries: Vec<ArtifactReference> = Vec::new();
        let mut i: usize = 0;
        while i < self.entries.len()
            invariant
                i <= self.entries@.len(),
                entries@ == self.entries@.take(i as int),
            decreases self.entries@.len() - i,
        {
            entries.push(self.entries[i].clone());
            i = i + 1;
            assert(entries@ =~= self.entries@.take(i as int));
        }
        assert(entries@ =~= self.entries@);
        PlaylistArtifact { entries }
    }
}

#[derive(Debug, PartialEq, Eq)]
pub struct ArtifactReference {
    pub artifact_id: ArtifactId,
}

impl Clone for ArtifactReference {
    fn clone(&self) -> (r: Self)
        ensures
            r == *self,
    {
        ArtifactReference { artifact_id: self.artifact_id.clone() }
    }
}

impl ArtifactReference {
    pub fn new(artifact_id: ArtifactId) -> (r: Self)
        ensures
            r.artifact_id == artifact_id,
    {
        ArtifactReference { artifact_id }
    }
}

} // verus!
