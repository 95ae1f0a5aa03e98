//! Encoders turn planned artifacts into materialized files.
use vstd::prelude::*;

use crate::model::error::IoError;
use crate::model::reader::ReaderHandle;
use crate::model::source::SourceRef;
use crate::model::vfs::{FileBacking, VfsFile};
use crate::output::capabilities::EncoderCapability;
use crate::output::plan::{ArtifactId, ArtifactRequest};
use crate::text::IntoText;

verus! {

#[derive(Debug, PartialEq, Eq)]
pub enum MaterializedArtifact {
    SourceBacked { source: SourceRef, size: u64 },
    Inline(Vec<u8>),
    ReaderBacked { handle: ReaderHandle, size: u64 },
}

impl MaterializedArtifact {
    /// A file of the given name backed by this artifact.
    pub fn to_vfs_file(&self, name: &str) -> (r: VfsFile)
        ensures
            r.name@ == name@,
            match *self {
                MaterializedArtifact::SourceBacked { source, size } => r.size == size && r.backing == FileBacking::Source(source),
                MaterializedArtifact::Inline(bytes) => r.size == bytes@.len() && (r.backing matches FileBacking::Inline(b) && b@ == bytes@),
                MaterializedArtifact::ReaderBacked { handle, size } => r.size == size && r.backing == FileBacking::Reader(handle),
            },
    {
        match self {
            MaterializedArtifact::SourceBacked { source, size } => VfsFile::source_backed(name, *size, source.clone()),
            MaterializedArtifact::Inline(contents) => {
                let bytes = vstd::slice::slice_to_vec(contents.as_slice());
                VfsFile::inline(name, bytes)
            },
            MaterializedArtifact::ReaderBacked { handle, size } => VfsFile::reader_backed(name, *size, handle.clone()),
        }
    }
}

/// One named member of an artifact that materializes into several files.
#[derive(Debug, PartialEq, Eq)]
pub struct MaterializedNamedArtifact {
    pub name: String,
    pub artifact: MaterializedArtifact,
}

impl MaterializedNamedArtifact {
    pub fn new<S: IntoText>(name: S, artifact: MaterializedArtifact) -> (r: Self)
        ensures
            r.name@ == name.text(),
            r.artifact == artifact,
    {
        MaterializedNamedArtifact { name: name.into_text(), artifact }
    }
}

/// The name bound to an artifact id: the first entry for it.
pub open spec fn spec_lookup(entries: Seq<(ArtifactId, String)>, id: Seq<char>) -> Option<Seq<char>>
    decreases entries.len(),
{
    if entries.len() == 0 {
        None
    } else if entries[0].0.0@ == id {
        Some(entries[0].1@)
    } else {
        spec_lookup(entries.drop_first(), id)
    }
}

/// No artifact id occurs twice.
pub open spec fn unique_keys(entries: Seq<(ArtifactId, String)>) -> bool {
    forall|i: int, j: int| 0 <= i < j < entries.len() ==> (#[trigger] entries[i]).0.0@ != (#[trigger] entries[j]).0.0@
}

/// Logical file names of planned artifacts, by artifact id, in insertion order.
#[derive(Debug, PartialEq, Eq)]
pub struct ArtifactNames {
    entries: Vec<(ArtifactId, String)>,
}

impl View for ArtifactNames {
    type V = Seq<(ArtifactId, String)>;

    closed spec fn view(&self) -> Seq<(ArtifactId, String)> {
        self.entries@
    }
}

impl ArtifactNames {
    pub fn new() -> (r: Self)
        ensures
            r@ == Seq::<(ArtifactId, String)>::empty(),
            unique_keys(r@),
    {
        ArtifactNames { entries: Vec::new() }
    }

    pub fn len(&self) -> (r: usize)
        ensures
            r == self@.len(),
    {
        self.entries.len()
    }

    pub fn entries(&self) -> (r: &[(ArtifactId, String)])
        ensures
            r@ == self@,
    {
        self.entries.as_slice()
    }

    /// The name bound to `id`.
    pub fn get(&self, id: &ArtifactId) -> (r: Option<&String>)
        ensures
            r matches Some(n) ==> spec_lookup(self@, id.0@) == Some(n@),
            r is None ==> spec_lookup(self@, id.0@) is None,
    {
        let i = self.position(id);
        match i {
            Some(i) => Some(&self.entries[i].1),
            None => None,
        }
    }

    fn position(&self, id: &ArtifactId) -> (r: Option<usize>)
        ensures
            r matches Some(i) ==> i < self.entries@.len() && self.entries@[i as int].0.0@ == id.0@
                && spec_lookup(self@, id.0@) == Some(self.entries@[i as int].1@)
                && forall|j: int| 0 <= j < i ==> (#[trigger] self.entries@[j]).0.0@ != id.0@,
            r is None ==> spec_lookup(self@, id.0@) is None && forall|j: int| 0 <= j < self.entries@.len() ==> (#[trigger] self.entries@[j]).0.0@ != id.0@,
    {
        let mut i: usize = 0;
        assert(self.entries@.skip(0) =~= self.entries@);
        while i < self.entries.len()
            invariant
                i <= self.entries@.len(),
                spec_lookup(self@, id.0@) == spec_lookup(self.entries@.skip(i as int), id.0@),
                forall|j: int| 0 <= j < i ==> (#[trigger] self.entries@[j]).0.0@ != id.0@,
            decreases self.entries@.len() - i,
        {
            assert(self.entries@.skip(i as int).drop_first() =~= self.entries@.skip(i + 1));
            if self.entries[i].0.0 == id.0 {
                return Some(i);
            }
            i = i + 1;
        }
        None
    }

    /// Binds `id` to `name`, replacing an earlier binding in place.
    pub fn insert(&mut self, id: ArtifactId, name: String)
        ensures
            unique_keys(old(self)@) ==> unique_keys(final(self)@),
            spec_lookup(final(self)@, id.0@) == Some(name@),
            forall|k: Seq<char>| k != id.0@ ==> spec_lookup(final(self)@, k) == spec_lookup(old(self)@, k),
    {
        match self.position(&id) {
            Some(i) => {
                let ghost before = self.entries@;
                let ghost target = id.0@;
                let key = self.entries[i].0.clone();
                self.entries.set(i, (key, name));
                proof {
                    lemma_lookup_update(before, i as int, self.entries@, target);
                    if unique_keys(before) {
                        assert forall|a: int, b: int| 0 <= a < b < self.entries@.len() implies (#[trigger] self.entries@[a]).0.0@ != (#[trigger] self.entries@[b]).0.0@ by {
                            assert(self.entries@[a].0 == before[a].0);
                            assert(self.entries@[b].0 == before[b].0);
                        }
                    }
                }
            },
            None => {
                let ghost before = self.entries@;
                let ghost target = id.0@;
                self.entries.push((id, name));
                proof {
                    assert(self.entries@.drop_last() =~= before);
                    lemma_lookup_push(before, self.entries@, target);
                    if unique_keys(before) {
                        assert forall|a: int, b: int| 0 <= a < b < self.entries@.len() implies (#[trigger] self.entries@[a]).0.0@ != (#[trigger] self.entries@[b]).0.0@ by {
                            assert(self.entries@[a] == before[a]);
                            if b < before.len() {
                                assert(self.entries@[b] == before[b]);
                            }
                        }
                    }
                }
            },
        }
    }
}

proof fn lemma_lookup_update(before: Seq<(ArtifactId, String)>, i: int, after: Seq<(ArtifactId, String)>, id: Seq<char>)
    requires
        0 <= i < before.len(),
        after.len() == before.len(),
        forall|j: int| 0 <= j < before.len() && j != i ==> after[j] == before[j],
        after[i].0 == before[i].0,
        before[i].0.0@ == id,
        forall|j: int| 0 <= j < i ==> (#[trigger] before[j]).0.0@ != id,
    ensures
        spec_lookup(after, id) == Some(after[i].1@),
        forall|k: Seq<char>| k != id ==> spec_lookup(after, k) == spec_lookup(before, k),
    decreases before.len(),
{
    if i > 0 {
        lemma_lookup_update(before.drop_first(), i - 1, after.drop_first(), id);
        assert forall|k: Seq<char>| k != id implies spec_lookup(after, k) == spec_lookup(before, k) by {
            assert(after[0] == before[0]);
            if after[0].0.0@ != k {
                assert(spec_lookup(after, k) == spec_lookup(after.drop_first(), k));
                assert(spec_lookup(before, k) == spec_lookup(before.drop_first(), k));
            }
        }
    } else {
        assert(after[0].0.0@ == id);
        assert forall|k: Seq<char>| k != id implies spec_lookup(after, k) == spec_lookup(before, k) by {
            assert(after.drop_first() =~= before.drop_first());
            assert(after[0].0.0@ != k);
            assert(before[0].0.0@ != k);
        }
    }
}

proof fn lemma_lookup_push(before: Seq<(ArtifactId, String)>, after: Seq<(ArtifactId, String)>, id: Seq<char>)
    requires
        after.len() == before.len() + 1,
        after.drop_last() == before,
        after.last().0.0@ == id,
        forall|j: int| 0 <= j < before.len() ==> (#[trigger] before[j]).0.0@ != id,
    ensures
        spec_lookup(after, id) == Some(after.last().1@),
        forall|k: Seq<char>| k != id ==> spec_lookup(after, k) == spec_lookup(before, k),
    decreases before.len(),
{
    if before.len() > 0 {
        assert(after.drop_first().drop_last() =~= before.drop_first());
        lemma_lookup_push(before.drop_first(), after.drop_first(), id);
        assert(after[0] == before[0]);
        assert(after.drop_first().last() == after.last());
        assert forall|k: Seq<char>| k != id implies spec_lookup(after, k) == spec_lookup(before, k) by {
            if after[0].0.0@ == k {
            } else {
                assert(spec_lookup(after.drop_first(), k) == spec_lookup(before.drop_first(), k));
            }
        }
    } else {
        assert(after[0] == after.last());
        assert forall|k: Seq<char>| k != id implies spec_lookup(after, k) == spec_lookup(before, k) by {
            assert(after.drop_first().len() == 0);
            assert(after[0].0.0@ != k);
            assert(spec_lookup(after, k) == spec_lookup(after.drop_first(), k));
            assert(spec_lookup(after.drop_first(), k) is None);
        }
    }
}

impl Default for ArtifactNames {
    fn default() -> (r: Self)
        ensures
            r@ == Seq::<(ArtifactId, String)>::empty(),
    {
        ArtifactNames::new()
    }
}

impl Clone for ArtifactNames {
    fn clone(&self) -> (r: Self)
        ensures
            r@.len() == self@.len(),
            forall|k: Seq<char>| spec_lookup(r@, k) == spec_lookup(self@, k),
    {
        let mut entries: Vec<(ArtifactId, String)> = Vec::new();
        let mut i: usize = 0;
        while i < self.entries.len()
            invariant
                i <= self.entries@.len(),
                entries@.len() == i,
                forall|j: int| 0 <= j < i ==> (#[trigger] entries@[j]).0 == self.entries@[j].0 && entries@[j].1@ == self.entries@[j].1@,
            decreases self.entries@.len() - i,
        {
            let e = &self.entries[i];
            entries.push((e.0.clone(), e.1.clone()));
            i = i + 1;
        }
        proof {
            assert forall|k: Seq<char>| spec_lookup(entries@, k) == spec_lookup(self.entries@, k) by {
                lemma_lookup_same(entries@, self.entries@, k);
            }
        }
        ArtifactNames { entries }
    }
}

proof fn lemma_lookup_same(a: Seq<(ArtifactId, String)>, b: Seq<(ArtifactId, String)>, k: Seq<char>)
    requires
        a.len() == b.len(),
        forall|j: int| 0 <= j < a.len() ==> (#[trigger] a[j]).0 == b[j].0 && a[j].1@ == b[j].1@,
    ensures
        spec_lookup(a, k) == spec_lookup(b, k),
    decreases a.len(),
{
    if a.len() > 0 {
        lemma_lookup_same(a.drop_first(), b.drop_first(), k);
    }
}

/// What an encoder is told about the rest of the plan: the names of all planned artifacts.
#[derive(Debug, PartialEq, Eq)]
pub struct MaterializationContext {
    pub artifact_names: ArtifactNames,
}

impl Clone for MaterializationContext {
    fn clone(&self) -> (r: Self)
        ensures
            r.artifact_names@.len() == self.artifact_names@.len(),
            forall|k: Seq<char>| spec_lookup(r.artifact_names@, k) == spec_lookup(self.artifact_names@, k),
    {
        MaterializationContext { artifact_names: self.artifact_names.clone() }
    }
}

/// Whether `r` is the refusal of an encoder whose capabilities each produce one file,
/// when asked for an artifact set.
pub open spec fn refuses_sets(capability_id: Seq<char>, r: Result<Vec<MaterializedNamedArtifact>, IoError>) -> bool {
    r matches Err(e) && e.kind == std::io::ErrorKind::Unsupported && e.message@ == "capability '"@ + capability_id
        + "' produces a single file"@
}

/// The refusal of an encoder that produces single files only, asked for an artifact set.
pub fn single_file_refusal(selected_capability_id: &str) -> (r: Result<Vec<MaterializedNamedArtifact>, IoError>)
    ensures
        refuses_sets(selected_capability_id@, r),
{
    Err(IoError::new(
        std::io::ErrorKind::Unsupported,
        crate::text::concat3("capability '", selected_capability_id, "' produces a single file"),
    ))
}

/// An encoder: the capabilities it offers and how it materializes artifacts with them.
/// Each encoder states, as relations, which capability lists it answers with and which
/// results it gives for a request.
pub trait OutputEncoder {
    /// The id of the plugin this encoder speaks for.
    spec fn encoder_id(&self) -> Seq<char>;

    /// Whether `r` is a capability list this encoder answers with.
    spec fn offers(&self, r: Seq<EncoderCapability>) -> bool;

    /// Whether `r` is a result this encoder gives when asked to materialize `artifact` as
    /// `file_name` with `selected_capability_id`, in `context`.
    spec fn materializes(
        &self,
        file_name: Seq<char>,
        artifact: ArtifactRequest,
        selected_capability_id: Seq<char>,
        context: MaterializationContext,
        r: Result<MaterializedArtifact, IoError>,
    ) -> bool;

    /// Whether `r` is a result this encoder gives when asked to materialize `artifact` as
    /// the artifact set `artifact_name`.
    spec fn materializes_set(
        &self,
        artifact_name: Seq<char>,
        artifact: ArtifactRequest,
        selected_capability_id: Seq<char>,
        context: MaterializationContext,
        r: Result<Vec<MaterializedNamedArtifact>, IoError>,
    ) -> bool;

    fn plugin_id(&self) -> (r: &str)
        ensures
            r@ == self.encoder_id(),
    ;

    fn capabilities(&self) -> (r: Vec<EncoderCapability>)
        ensures
            self.offers(r@),
    ;

    fn materialize(
        &self,
        file_name: &str,
        artifact: &ArtifactRequest,
        selected_capability_id: &str,
        context: &MaterializationContext,
    ) -> (r: Result<MaterializedArtifact, IoError>)
        ensures
            self.materializes(file_name@, *artifact, selected_capability_id@, *context, r),
    ;

    /// Materializes an artifact that becomes several named files.
    fn materialize_set(
        &self,
        artifact_name: &str,
        artifact: &ArtifactRequest,
        selected_capability_id: &str,
        context: &MaterializationContext,
    ) -> (r: Result<Vec<MaterializedNamedArtifact>, IoError>)
        ensures
            self.materializes_set(artifact_name@, *artifact, selected_capability_id@, *context, r),
    ;
}

} // verus!
