//! Turns a presentation plan into a virtual directory tree by resolving, for every
//! planned artifact, the encoder capability that materializes it.
use vstd::prelude::*;

use crate::model::error::IoError;
use crate::model::vfs::{spec_node_name, VfsDirectory, VfsFile, VfsNode};
use crate::output::capabilities::EncoderCapability;
use crate::output::encode::{spec_lookup,  ArtifactNames, MaterializationContext, MaterializedArtifact, MaterializedNamedArtifact, OutputEncoder};
use crate::output::basic_encoder::BasicEncoder;
use crate::output::encoder_registry::{behaves_as, BoxedEncoder, BuiltinEncoderFactory, EncoderFactory};
use crate::output::logical_disc_iso_encoder::LogicalDiscIsoEncoder;
use crate::output::plan::{spec_entry_name, ArtifactId, ArtifactRequest, PlanArtifactSet, PlanEntry, PlanFile, PresentationPlan};
use crate::output::resolution::{accepts, is_first_best, CapabilityResolver, ResolutionDiagnostic, ResolutionResult, ResolvedCapability};
use crate::output::plugin_client::EncoderPluginClient;
use crate::output::plugin_encoder::protocol_error_text;
use crate::output::plugin_registry::{built_for, PluginRegistry};
use crate::text::{concat2, concat3, str_eq};

verus! {

/// The (artifact id, logical name) pairs of a plan entry, depth first: a file names its
/// artifact, an artifact set names its artifact by the set's primary file.
pub open spec fn entry_pairs(entry: PlanEntry) -> Seq<(Seq<char>, Seq<char>)>
    decreases entry,
{
    match entry {
        PlanEntry::Directory(d) => entries_pairs(d.entries@),
        PlanEntry::File(f) => seq![(f.artifact.id.0@, f.name@)],
        PlanEntry::ArtifactSet(s) => seq![(s.artifact.id.0@, s.artifact_name@ + seq!['.'] + s.primary_extension@)],
    }
}

/// The pairs of a list of entries, in order.
pub open spec fn entries_pairs(entries: Seq<PlanEntry>) -> Seq<(Seq<char>, Seq<char>)>
    decreases entries,
{
    if entries.len() == 0 {
        Seq::empty()
    } else {
        entries_pairs(entries.drop_last()) + entry_pairs(entries.last())
    }
}

/// The name the last pair for `id` gives it.
pub open spec fn last_name(pairs: Seq<(Seq<char>, Seq<char>)>, id: Seq<char>) -> Option<Seq<char>>
    decreases pairs.len(),
{
    if pairs.len() == 0 {
        None
    } else if pairs.last().0 == id {
        Some(pairs.last().1)
    } else {
        last_name(pairs.drop_last(), id)
    }
}

/// Whether a node is what a plan entry materializes into: a directory for a directory
/// (with mirrored children) and for an artifact set, a file for a file, under the same name.
pub open spec fn node_mirrors(entry: PlanEntry, node: VfsNode) -> bool
    decreases entry,
{
    spec_node_name(node) == spec_entry_name(entry) && match entry {
        PlanEntry::Directory(d) => node matches VfsNode::Directory(nd) && nodes_mirror(d.entries@, nd.children@),
        PlanEntry::File(_) => node is File,
        PlanEntry::ArtifactSet(_) => node is Directory,
    }
}

/// Whether the nodes mirror the entries one for one.
pub open spec fn nodes_mirror(entries: Seq<PlanEntry>, nodes: Seq<VfsNode>) -> bool
    decreases entries,
{
    &&& entries.len() == nodes.len()
    &&& forall|i: int| 0 <= i < entries.len() ==> node_mirrors(#[trigger] entries[i], nodes[i])
}

/// Whether an entry needs no encoder: a directory whose entries need none.
pub open spec fn entry_encoder_free(entry: PlanEntry) -> bool
    decreases entry,
{
    match entry {
        PlanEntry::Directory(d) => entries_encoder_free(d.entries@),
        _ => false,
    }
}

/// Whether no entry of a list needs an encoder: directories all the way down, no files.
pub open spec fn entries_encoder_free(entries: Seq<PlanEntry>) -> bool
    decreases entries,
{
    if entries.len() == 0 {
        true
    } else {
        entries_encoder_free(entries.drop_last()) && entry_encoder_free(entries.last())
    }
}

proof fn lemma_encoder_free_each(entries: Seq<PlanEntry>)
    ensures
        entries_encoder_free(entries) <==> forall|i: int| 0 <= i < entries.len() ==> entry_encoder_free(#[trigger] entries[i]),
    decreases entries.len(),
{
    if entries.len() > 0 {
        lemma_encoder_free_each(entries.drop_last());
        let prefix = entries.drop_last();
        assert forall|i: int| 0 <= i < prefix.len() implies prefix[i] == entries[i] by {}
        if forall|i: int| 0 <= i < entries.len() ==> entry_encoder_free(#[trigger] entries[i]) {
            assert forall|i: int| 0 <= i < prefix.len() implies entry_encoder_free(#[trigger] prefix[i]) by {
                assert(entry_encoder_free(entries[i]));
            }
            assert(entry_encoder_free(entries[entries.len() - 1]));
        }
    }
}

/// The diagnostics of a failed resolution, rendered by their `Debug` form.
#[verifier::external_body]
fn diagnostics_text(diagnostics: &ResolutionDiagnostic) -> String {
    format!("{diagnostics:?}")
}

/// Logical names of every planned artifact: for each id, the last name the plan gives it.
pub fn collect_artifact_names(entries: &[PlanEntry]) -> (r: ArtifactNames)
    ensures
        forall|id: Seq<char>| #[trigger] spec_lookup(r@, id) == last_name(entries_pairs(entries@), id),
{
    let mut names = ArtifactNames::new();
    collect_into(entries, &mut names);
    names
}

/// Adds the pairs of `entries`, in order, to `names`.
fn collect_into(entries: &[PlanEntry], names: &mut ArtifactNames)
    ensures
        forall|id: Seq<char>| #[trigger] spec_lookup(final(names)@, id) == match last_name(entries_pairs(entries@), id) {
            Some(n) => Some(n),
            None => spec_lookup(old(names)@, id),
        },
    decreases entries@,
{
    let ghost start = names@;
    let mut i: usize = 0;
    while i < entries.len()
        invariant
            i <= entries@.len(),
            forall|id: Seq<char>| #[trigger] spec_lookup(names@, id) == match last_name(entries_pairs(entries@.take(i as int)), id) {
                Some(n) => Some(n),
                None => spec_lookup(start, id),
            },
        decreases entries@.len() - i,
    {
        let ghost mid = names@;
        let ghost prefix = entries@.take(i as int);
        let ghost next = entries@.take(i + 1);
        proof {
            assert(next.drop_last() =~= prefix);
            assert(next.last() == entries@[i as int]);
        }
        match &entries[i] {
            PlanEntry::Directory(d) => {
                proof {
                    assert(decreases_to!(entries@ => entries@[i as int]));
                }
                collect_into(d.entries.as_slice(), names);
            },
            PlanEntry::File(f) => {
                names.insert(f.artifact.id.clone(), f.name.clone());
                proof {
                    lemma_last_name_single(f.artifact.id.0@, f.name@);
                }
            },
            PlanEntry::ArtifactSet(s) => {
                let primary = s.primary_file_name();
                names.insert(s.artifact.id.clone(), primary);
                proof {
                    lemma_last_name_single(s.artifact.id.0@, s.artifact_name@ + seq!['.'] + s.primary_extension@);
                }
            },
        }
        proof {
            let added = entry_pairs(entries@[i as int]);
            assert(forall|id: Seq<char>| #[trigger] spec_lookup(names@, id) == match last_name(added, id) {
                Some(n) => Some(n),
                None => spec_lookup(mid, id),
            });
            assert(entries_pairs(next) == entries_pairs(prefix) + added);
            assert forall|id: Seq<char>| #[trigger] spec_lookup(names@, id) == match last_name(entries_pairs(next), id) {
                Some(n) => Some(n),
                None => spec_lookup(start, id),
            } by {
                lemma_last_name_concat(entries_pairs(prefix), added, id);
            }
        }
        i = i + 1;
    }
    assert(entries@.take(entries@.len() as int) =~= entries@);
}

proof fn lemma_last_name_single(key: Seq<char>, name: Seq<char>)
    ensures
        forall|id: Seq<char>| #[trigger] last_name(seq![(key, name)], id) == if id == key { Some(name) } else { None::<Seq<char>> },
{
    assert forall|id: Seq<char>| #[trigger] last_name(seq![(key, name)], id) == if id == key { Some(name) } else { None::<Seq<char>> } by {
        let s = seq![(key, name)];
        assert(s.drop_last() =~= Seq::<(Seq<char>, Seq<char>)>::empty());
        assert(s.last() == (key, name));
        assert(last_name(Seq::<(Seq<char>, Seq<char>)>::empty(), id) is None);
    }
}

proof fn lemma_last_name_concat(a: Seq<(Seq<char>, Seq<char>)>, b: Seq<(Seq<char>, Seq<char>)>, id: Seq<char>)
    ensures
        last_name(a + b, id) == match last_name(b, id) {
            Some(n) => Some(n),
            None => last_name(a, id),
        },
    decreases b.len(),
{
    if b.len() == 0 {
        assert(a + b =~= a);
    } else {
        assert((a + b).drop_last() =~= a + b.drop_last());
        assert((a + b).last() == b.last());
        lemma_last_name_concat(a, b.drop_last(), id);
    }
}

/// The capability lists, one per encoder, joined in encoder order.
pub open spec fn caps_of(parts: Seq<Seq<EncoderCapability>>) -> Seq<EncoderCapability>
    decreases parts.len(),
{
    if parts.len() == 0 {
        Seq::empty()
    } else {
        caps_of(parts.drop_last()) + parts.last()
    }
}

/// Whether `parts` are answers the encoders give when asked for their capabilities, one
/// list per encoder.
pub open spec fn answered(encoders: Seq<BoxedEncoder>, parts: Seq<Seq<EncoderCapability>>) -> bool {
    &&& parts.len() == encoders.len()
    &&& forall|i: int| 0 <= i < parts.len() ==> encoders[i].0.offers(#[trigger] parts[i])
}

/// Whether encoder `i` is the first that speaks for plugin `id`.
pub open spec fn first_with_id(encoders: Seq<BoxedEncoder>, id: Seq<char>, i: int) -> bool {
    &&& 0 <= i < encoders.len()
    &&& encoders[i].0.encoder_id() == id
    &&& forall|j: int| 0 <= j < i ==> (#[trigger] encoders[j]).0.encoder_id() != id
}

/// Whether no capability accepts the artifact.
pub open spec fn none_accepts(artifact: ArtifactRequest, caps: Seq<EncoderCapability>) -> bool {
    forall|k: int| 0 <= k < caps.len() ==> !accepts(artifact, #[trigger] caps[k])
}

/// Whether `ctx` names the planned artifacts as `names` does.
pub open spec fn context_names(ctx: MaterializationContext, names: ArtifactNames) -> bool {
    forall|k: Seq<char>| #[trigger] spec_lookup(ctx.artifact_names@, k) == spec_lookup(names@, k)
}

/// Whether `f` is the file `name` backed by `artifact`.
pub open spec fn vfs_file_of(name: Seq<char>, artifact: MaterializedArtifact, f: VfsFile) -> bool {
    f.name@ == name && match artifact {
        MaterializedArtifact::SourceBacked { source, size } => f.size == size && f.backing == crate::model::vfs::FileBacking::Source(source),
        MaterializedArtifact::Inline(bytes) => f.size == bytes@.len()
            && (f.backing matches crate::model::vfs::FileBacking::Inline(b) && b@ == bytes@),
        MaterializedArtifact::ReaderBacked { handle, size } => f.size == size
            && f.backing == crate::model::vfs::FileBacking::Reader(handle),
    }
}

/// Whether `w` is the encoder error `e`, kept in kind and explained by the file, the
/// artifact id, the encoder and the capability.
pub open spec fn wrapped(name: Seq<char>, id: Seq<char>, plugin_id: Seq<char>, capability_id: Seq<char>, e: IoError, w: IoError) -> bool {
    &&& w.kind == e.kind
    &&& w.message@ == "failed to materialize artifact '"@ + name + "' (id '"@ + id + "') using encoder '"@ + plugin_id
        + "' capability '"@ + capability_id + "': "@ + e.message@
}

/// What a planned file becomes from the encoder's outcome.
pub open spec fn finished(file: PlanFile, plugin_id: Seq<char>, capability_id: Seq<char>, outcome: Result<MaterializedArtifact, IoError>, r: Result<VfsFile, IoError>) -> bool {
    match outcome {
        Ok(artifact) => r matches Ok(f) && vfs_file_of(file.name@, artifact, f),
        Err(e) => r matches Err(w) && wrapped(file.name@, file.artifact.id.0@, plugin_id, capability_id, e, w),
    }
}

/// The error when the capability that resolution selects belongs to no given encoder.
pub open spec fn unavailable(plugin_id: Seq<char>, e: IoError) -> bool {
    e.kind == std::io::ErrorKind::NotFound && e.message@ == "selected encoder '"@ + plugin_id + "' is unavailable"@
}

/// What materializing `file` gives when the encoders answer with the capabilities `caps`:
/// no accepting capability is an `Unsupported` error; otherwise the first best capability
/// is asked of the first encoder of its plugin, with the plan's names, and its outcome
/// becomes the file.
pub open spec fn file_outcome(file: PlanFile, names: ArtifactNames, encoders: Seq<BoxedEncoder>, caps: Seq<EncoderCapability>, r: Result<VfsFile, IoError>) -> bool {
    if none_accepts(file.artifact, caps) {
        r matches Err(e) && e.kind == std::io::ErrorKind::Unsupported
    } else {
        exists|k: int| #[trigger] is_first_best(file.artifact, caps, k) && {
            let pid = caps[k].plugin_id@;
            let cid = caps[k].capability_id@;
            &&& (forall|j: int| 0 <= j < encoders.len() ==> (#[trigger] encoders[j]).0.encoder_id() != pid) ==> (r matches Err(e) && unavailable(pid, e))
            &&& forall|i: int| #[trigger] first_with_id(encoders, pid, i) ==> exists|ctx: MaterializationContext, outcome: Result<MaterializedArtifact, IoError>|
                context_names(ctx, names) && #[trigger] encoders[i].0.materializes(file.name@, file.artifact, cid, ctx, outcome)
                && finished(file, pid, cid, outcome, r)
        }
    }
}

/// What an artifact set becomes from the encoder's outcome: a directory of its members.
pub open spec fn set_finished(set: PlanArtifactSet, plugin_id: Seq<char>, capability_id: Seq<char>, outcome: Result<Vec<MaterializedNamedArtifact>, IoError>, r: Result<VfsDirectory, IoError>) -> bool {
    match outcome {
        Ok(members) => r matches Ok(d) && d.name@ == set.directory_name@ && d.children@.len() == members@.len()
            && forall|j: int| 0 <= j < members@.len() ==> (#[trigger] d.children@[j] matches VfsNode::File(f)
                && vfs_file_of(members@[j].name@, members@[j].artifact, f)),
        Err(e) => r matches Err(w) && wrapped(set.artifact_name@ + seq!['.'] + set.primary_extension@, set.artifact.id.0@,
            plugin_id, capability_id, e, w),
    }
}

/// What materializing an artifact set gives when the encoders answer with `caps`, as for a file.
pub open spec fn set_outcome(set: PlanArtifactSet, names: ArtifactNames, encoders: Seq<BoxedEncoder>, caps: Seq<EncoderCapability>, r: Result<VfsDirectory, IoError>) -> bool {
    if none_accepts(set.artifact, caps) {
        r matches Err(e) && e.kind == std::io::ErrorKind::Unsupported
    } else {
        exists|k: int| #[trigger] is_first_best(set.artifact, caps, k) && {
            let pid = caps[k].plugin_id@;
            let cid = caps[k].capability_id@;
            &&& (forall|j: int| 0 <= j < encoders.len() ==> (#[trigger] encoders[j]).0.encoder_id() != pid) ==> (r matches Err(e) && unavailable(pid, e))
            &&& forall|i: int| #[trigger] first_with_id(encoders, pid, i) ==> exists|ctx: MaterializationContext, outcome: Result<Vec<MaterializedNamedArtifact>, IoError>|
                context_names(ctx, names) && #[trigger] encoders[i].0.materializes_set(set.artifact_name@, set.artifact, cid, ctx, outcome)
                && set_finished(set, pid, cid, outcome, r)
        }
    }
}

/// The capabilities offered by the encoders, in encoder order.
pub fn collect_capabilities(encoders: &[BoxedEncoder]) -> (r: Vec<EncoderCapability>)
    ensures
        encoders@.len() == 0 ==> r@.len() == 0,
        exists|parts: Seq<Seq<EncoderCapability>>| #[trigger] answered(encoders@, parts) && r@ == caps_of(parts),
{
    let mut all: Vec<EncoderCapability> = Vec::new();
    let ghost mut parts: Seq<Seq<EncoderCapability>> = Seq::empty();
    let mut i: usize = 0;
    while i < encoders.len()
        invariant
            i <= encoders@.len(),
            parts.len() == i,
            forall|j: int| 0 <= j < i ==> encoders@[j].0.offers(#[trigger] parts[j]),
            all@ == caps_of(parts),
        decreases encoders@.len() - i,
    {
        let mut caps = encoders[i].0.capabilities();
        proof {
            let next = parts.push(caps@);
            assert(next.drop_last() =~= parts);
            assert forall|j: int| 0 <= j < i + 1 implies encoders@[j].0.offers(#[trigger] next[j]) by {
                if j < i {
                    assert(next[j] == parts[j]);
                }
            }
            parts = next;
        }
        all.append(&mut caps);
        i = i + 1;
    }
    assert(answered(encoders@, parts));
    all
}

/// The capability that materializes the artifact named `name` among `capabilities`, and
/// the position of the first encoder whose plugin id offers it.
pub fn select_encoder(name: &str, artifact: &ArtifactRequest, capabilities: &[EncoderCapability], plugin_ids: &[&str]) -> (r: Result<(usize, ResolvedCapability), IoError>)
    ensures
        none_accepts(*artifact, capabilities@) ==> (r matches Err(e) && e.kind == std::io::ErrorKind::Unsupported),
        !none_accepts(*artifact, capabilities@) ==> exists|k: int| #[trigger] is_first_best(*artifact, capabilities@, k) && match r {
            Ok((index, selected)) => {
                &&& index < plugin_ids@.len()
                &&& plugin_ids@[index as int]@ == capabilities@[k].plugin_id@
                &&& forall|j: int| 0 <= j < index ==> (#[trigger] plugin_ids@[j])@ != capabilities@[k].plugin_id@
                &&& selected.plugin_id@ == capabilities@[k].plugin_id@
                &&& selected.capability_id@ == capabilities@[k].capability_id@
            },
            Err(e) => {
                &&& forall|j: int| 0 <= j < plugin_ids@.len() ==> (#[trigger] plugin_ids@[j])@ != capabilities@[k].plugin_id@
                &&& unavailable(capabilities@[k].plugin_id@, e)
            },
        },
{
    let resolver = CapabilityResolver;
    let selected = match resolver.resolve(artifact, capabilities) {
        ResolutionResult::Resolved { selected, .. } => selected,
        ResolutionResult::Unresolved { diagnostics } => {
            let mut message = concat3("no encoder could materialize artifact '", name, "' (");
            let text = diagnostics_text(&diagnostics);
            message.append(text.as_str());
            message.append(")");
            return Err(IoError::new(std::io::ErrorKind::Unsupported, message));
        },
    };
    match position_of(plugin_ids, selected.plugin_id.as_str()) {
        Some(i) => Ok((i, selected)),
        None => Err(IoError::new(
            std::io::ErrorKind::NotFound,
            concat3("selected encoder '", selected.plugin_id.as_str(), "' is unavailable"),
        )),
    }
}

/// The position of the first id equal to `id`.
fn position_of(ids: &[&str], id: &str) -> (r: Option<usize>)
    ensures
        r matches Some(i) ==> i < ids@.len() && ids@[i as int]@ == id@ && forall|j: int| 0 <= j < i ==> (#[trigger] ids@[j])@ != id@,
        r is None ==> forall|j: int| 0 <= j < ids@.len() ==> (#[trigger] ids@[j])@ != id@,
{
    let mut i: usize = 0;
    while i < ids.len()
        invariant
            i <= ids@.len(),
            forall|j: int| 0 <= j < i ==> (#[trigger] ids@[j])@ != id@,
        decreases ids@.len() - i,
    {
        if str_eq(ids[i], id) {
            return Some(i);
        }
        i = i + 1;
    }
    None
}

/// What a materialization attempt becomes: the file itself, or the encoder's error kind
/// with a message that names the artifact, the encoder and the capability.
pub fn finish_file(file: &PlanFile, selected: &ResolvedCapability, outcome: Result<MaterializedArtifact, IoError>) -> (r: Result<VfsFile, IoError>)
    ensures
        finished(*file, selected.plugin_id@, selected.capability_id@, outcome, r),
{
    match outcome {
        Ok(artifact) => Ok(artifact.to_vfs_file(file.name.as_str())),
        Err(e) => Err(wrap_error(file.name.as_str(), &file.artifact.id, selected, e)),
    }
}

/// An encoder's error, kept in kind and explained by the artifact, encoder and capability.
fn wrap_error(name: &str, id: &ArtifactId, selected: &ResolvedCapability, e: IoError) -> (w: IoError)
    ensures
        wrapped(name@, id.0@, selected.plugin_id@, selected.capability_id@, e, w),
{
    let mut message = concat3("failed to materialize artifact '", name, "' (id '");
    message.append(id.0.as_str());
    message.append("') using encoder '");
    message.append(selected.plugin_id.as_str());
    message.append("' capability '");
    message.append(selected.capability_id.as_str());
    message.append("': ");
    message.append(e.message.as_str());
    IoError::new(e.kind, message)
}

fn plugin_ids(encoders: &[BoxedEncoder]) -> (r: Vec<&str>)
    ensures
        r@.len() == encoders@.len(),
        forall|i: int| 0 <= i < r@.len() ==> (#[trigger] r@[i])@ == encoders@[i].0.encoder_id(),
{
    let mut ids: Vec<&str> = Vec::new();
    let mut i: usize = 0;
    while i < encoders.len()
        invariant
            i <= encoders@.len(),
            ids@.len() == i,
            forall|j: int| 0 <= j < i ==> (#[trigger] ids@[j])@ == encoders@[j].0.encoder_id(),
        decreases encoders@.len() - i,
    {
        ids.push(encoders[i].0.plugin_id());
        i = i + 1;
    }
    ids
}

/// What materializing `file` gives: for some capability answers of the encoders, the
/// outcome `file_outcome` describes.
pub open spec fn file_result(file: PlanFile, names: ArtifactNames, encoders: Seq<BoxedEncoder>, r: Result<VfsFile, IoError>) -> bool {
    exists|parts: Seq<Seq<EncoderCapability>>| #[trigger] answered(encoders, parts) && file_outcome(file, names, encoders, caps_of(parts), r)
}

/// What materializing an artifact set gives, as for a file.
pub open spec fn set_result(set: PlanArtifactSet, names: ArtifactNames, encoders: Seq<BoxedEncoder>, r: Result<VfsDirectory, IoError>) -> bool {
    exists|parts: Seq<Seq<EncoderCapability>>| #[trigger] answered(encoders, parts) && set_outcome(set, names, encoders, caps_of(parts), r)
}

/// Materializes one planned file with the encoder whose capability resolution selects.
fn materialize_file(file: &PlanFile, names: &ArtifactNames, encoders: &[BoxedEncoder]) -> (r: Result<VfsFile, IoError>)
    ensures
        r matches Ok(f) ==> f.name@ == file.name@,
        encoders@.len() == 0 ==> (r matches Err(e) && e.kind == std::io::ErrorKind::Unsupported),
        file_result(*file, *names, encoders@, r),
{
    let capabilities = collect_capabilities(encoders);
    let ghost parts = choose|parts: Seq<Seq<EncoderCapability>>| #[trigger] answered(encoders@, parts) && capabilities@ == caps_of(parts);
    let ids = plugin_ids(encoders);
    let (index, selected) = match select_encoder(file.name.as_str(), &file.artifact, capabilities.as_slice(), ids.as_slice()) {
        Ok(found) => found,
        Err(e) => {
            proof {
                let caps = capabilities@;
                if !none_accepts(file.artifact, caps) {
                    let k = choose|k: int| #[trigger] is_first_best(file.artifact, caps, k)
                        && (forall|j: int| 0 <= j < ids@.len() ==> (#[trigger] ids@[j])@ != caps[k].plugin_id@)
                        && unavailable(caps[k].plugin_id@, e);
                    let pid = caps[k].plugin_id@;
                    assert forall|j: int| 0 <= j < encoders@.len() implies (#[trigger] encoders@[j]).0.encoder_id() != pid by {
                        assert(ids@[j]@ == encoders@[j].0.encoder_id());
                    }
                    assert forall|i: int| #[trigger] first_with_id(encoders@, pid, i) implies false by {
                        assert(ids@[i]@ == encoders@[i].0.encoder_id());
                    }
                    assert(is_first_best(file.artifact, caps, k));
                }
                assert(file_outcome(*file, *names, encoders@, caps_of(parts), Err::<VfsFile, IoError>(e)));
            }
            return Err(e);
        },
    };
    let context = MaterializationContext { artifact_names: names.clone() };
    let outcome = encoders[index].0.materialize(file.name.as_str(), &file.artifact, selected.capability_id.as_str(), &context);
    let r = finish_file(file, &selected, outcome);
    proof {
        let caps = capabilities@;
        assert(context_names(context, *names));
        assert(!none_accepts(file.artifact, caps));
        let k = choose|k: int| #[trigger] is_first_best(file.artifact, caps, k)
            && index < ids@.len()
            && ids@[index as int]@ == caps[k].plugin_id@
            && (forall|j: int| 0 <= j < index ==> (#[trigger] ids@[j])@ != caps[k].plugin_id@)
            && selected.plugin_id@ == caps[k].plugin_id@
            && selected.capability_id@ == caps[k].capability_id@;
        let pid = caps[k].plugin_id@;
        let cid = caps[k].capability_id@;
        assert(ids@[index as int]@ == encoders@[index as int].0.encoder_id());
        assert forall|j: int| 0 <= j < index implies (#[trigger] encoders@[j]).0.encoder_id() != pid by {
            assert(ids@[j]@ == encoders@[j].0.encoder_id());
        }
        assert(first_with_id(encoders@, pid, index as int));
        assert forall|i: int| #[trigger] first_with_id(encoders@, pid, i) implies exists|ctx: MaterializationContext, out: Result<MaterializedArtifact, IoError>|
            context_names(ctx, *names) && #[trigger] encoders@[i].0.materializes(file.name@, file.artifact, cid, ctx, out)
            && finished(*file, pid, cid, out, r) by {
            if i < index {
                assert(encoders@[i].0.encoder_id() != pid);
            } else if i > index {
                assert(encoders@[index as int].0.encoder_id() != pid);
            }
            assert(encoders@[index as int].0.materializes(file.name@, file.artifact, cid, context, outcome));
        }
        assert(encoders@[index as int].0.encoder_id() == pid);
        assert(is_first_best(file.artifact, caps, k));
        assert(file_outcome(*file, *names, encoders@, caps_of(parts), r));
    }
    r
}

/// Materializes an artifact set into a directory of its members.
fn materialize_set(set: &PlanArtifactSet, names: &ArtifactNames, encoders: &[BoxedEncoder]) -> (r: Result<VfsDirectory, IoError>)
    ensures
        r matches Ok(d) ==> d.name@ == set.directory_name@,
        encoders@.len() == 0 ==> (r matches Err(e) && e.kind == std::io::ErrorKind::Unsupported),
        set_result(*set, *names, encoders@, r),
{
    let primary = set.primary_file_name();
    let capabilities = collect_capabilities(encoders);
    let ghost parts = choose|parts: Seq<Seq<EncoderCapability>>| #[trigger] answered(encoders@, parts) && capabilities@ == caps_of(parts);
    let ids = plugin_ids(encoders);
    let (index, selected) = match select_encoder(primary.as_str(), &set.artifact, capabilities.as_slice(), ids.as_slice()) {
        Ok(found) => found,
        Err(e) => {
            proof {
                let caps = capabilities@;
                if !none_accepts(set.artifact, caps) {
                    let k = choose|k: int| #[trigger] is_first_best(set.artifact, caps, k)
                        && (forall|j: int| 0 <= j < ids@.len() ==> (#[trigger] ids@[j])@ != caps[k].plugin_id@)
                        && unavailable(caps[k].plugin_id@, e);
                    let pid = caps[k].plugin_id@;
                    assert forall|j: int| 0 <= j < encoders@.len() implies (#[trigger] encoders@[j]).0.encoder_id() != pid by {
                        assert(ids@[j]@ == encoders@[j].0.encoder_id());
                    }
                    assert forall|i: int| #[trigger] first_with_id(encoders@, pid, i) implies false by {
                        assert(ids@[i]@ == encoders@[i].0.encoder_id());
                    }
                    assert(is_first_best(set.artifact, caps, k));
                }
                assert(set_outcome(*set, *names, encoders@, caps_of(parts), Err::<VfsDirectory, IoError>(e)));
            }
            return Err(e);
        },
    };
    let context = MaterializationContext { artifact_names: names.clone() };
    let outcome = encoders[index].0.materialize_set(set.artifact_name.as_str(), &set.artifact, selected.capability_id.as_str(), &context);
    let r = match outcome {
        Ok(members) => {
            let mut children: Vec<VfsNode> = Vec::new();
            let mut i: usize = 0;
            while i < members.len()
                invariant
                    i <= members@.len(),
                    children@.len() == i,
                    forall|j: int| 0 <= j < i ==> (#[trigger] children@[j] matches VfsNode::File(f)
                        && vfs_file_of(members@[j].name@, members@[j].artifact, f)),
                decreases members@.len() - i,
            {
                let member = &members[i];
                children.push(VfsNode::File(member.artifact.to_vfs_file(member.name.as_str())));
                i = i + 1;
            }
            let d = VfsDirectory::with_children(set.directory_name.as_str(), children);
            proof {
                assert(set_finished(*set, selected.plugin_id@, selected.capability_id@, Ok::<Vec<MaterializedNamedArtifact>, IoError>(members), Ok::<VfsDirectory, IoError>(d)));
            }
            Ok(d)
        },
        Err(e) => Err(wrap_error(primary.as_str(), &set.artifact.id, &selected, e)),
    };
    proof {
        let caps = capabilities@;
        assert(context_names(context, *names));
        assert(set_finished(*set, selected.plugin_id@, selected.capability_id@, outcome, r));
        assert(!none_accepts(set.artifact, caps));
        let k = choose|k: int| #[trigger] is_first_best(set.artifact, caps, k)
            && index < ids@.len()
            && ids@[index as int]@ == caps[k].plugin_id@
            && (forall|j: int| 0 <= j < index ==> (#[trigger] ids@[j])@ != caps[k].plugin_id@)
            && selected.plugin_id@ == caps[k].plugin_id@
            && selected.capability_id@ == caps[k].capability_id@;
        let pid = caps[k].plugin_id@;
        let cid = caps[k].capability_id@;
        assert(ids@[index as int]@ == encoders@[index as int].0.encoder_id());
        assert forall|j: int| 0 <= j < index implies (#[trigger] encoders@[j]).0.encoder_id() != pid by {
            assert(ids@[j]@ == encoders@[j].0.encoder_id());
        }
        assert(first_with_id(encoders@, pid, index as int));
        assert forall|i: int| #[trigger] first_with_id(encoders@, pid, i) implies exists|ctx: MaterializationContext, out: Result<Vec<MaterializedNamedArtifact>, IoError>|
            context_names(ctx, *names) && #[trigger] encoders@[i].0.materializes_set(set.artifact_name@, set.artifact, cid, ctx, out)
            && set_finished(*set, pid, cid, out, r) by {
            if i < index {
                assert(encoders@[i].0.encoder_id() != pid);
            } else if i > index {
                assert(encoders@[index as int].0.encoder_id() != pid);
            }
            assert(encoders@[index as int].0.materializes_set(set.artifact_name@, set.artifact, cid, context, outcome));
        }
        assert(encoders@[index as int].0.encoder_id() == pid);
        assert(is_first_best(set.artifact, caps, k));
        assert(set_outcome(*set, *names, encoders@, caps_of(parts), r));
    }
    r
}

/// Whether `node` is what a plan entry materializes into without error: a directory of its
/// materialized entries, the materialized file, or the directory of an artifact set.
pub open spec fn ok_entry(entry: PlanEntry, names: ArtifactNames, encoders: Seq<BoxedEncoder>, node: VfsNode) -> bool
    decreases entry, 0int,
{
    match entry {
        PlanEntry::Directory(d) => node matches VfsNode::Directory(nd) && nd.name@ == d.name@
            && ok_entries(d.entries@, names, encoders, nd.children@),
        PlanEntry::File(f) => node matches VfsNode::File(vf) && file_result(f, names, encoders, Ok(vf)),
        PlanEntry::ArtifactSet(set) => node matches VfsNode::Directory(d) && set_result(set, names, encoders, Ok(d)),
    }
}

/// Whether `nodes` are what the entries materialize into, one for one, without error.
pub open spec fn ok_entries(entries: Seq<PlanEntry>, names: ArtifactNames, encoders: Seq<BoxedEncoder>, nodes: Seq<VfsNode>) -> bool
    decreases entries, 0int,
{
    if entries.len() == 0 {
        nodes.len() == 0
    } else {
        &&& nodes.len() > 0
        &&& ok_entries(entries.drop_last(), names, encoders, nodes.drop_last())
        &&& ok_entry(entries.last(), names, encoders, nodes.last())
    }
}

/// Whether materializing the entry fails with `e`: a file or artifact set whose
/// materialization fails so, or a directory whose entries do; `path` holds, level by
/// level, the nodes materialized before the failing entry.
pub open spec fn err_entry(entry: PlanEntry, names: ArtifactNames, encoders: Seq<BoxedEncoder>, e: IoError, path: Seq<Seq<VfsNode>>) -> bool
    decreases entry, 1int,
{
    match entry {
        PlanEntry::Directory(d) => path.len() > 0 && err_entries(d.entries@, names, encoders, path[0], e, path.drop_first()),
        PlanEntry::File(f) => file_result(f, names, encoders, Err(e)),
        PlanEntry::ArtifactSet(set) => set_result(set, names, encoders, Err(e)),
    }
}

/// Whether materializing the entries fails with `e` at the first entry that fails, after
/// the entries before it materialized into `done`.
pub open spec fn err_entries(entries: Seq<PlanEntry>, names: ArtifactNames, encoders: Seq<BoxedEncoder>, done: Seq<VfsNode>, e: IoError, path: Seq<Seq<VfsNode>>) -> bool
    decreases entries, 1int,
{
    if entries.len() == 0 {
        false
    } else {
        ||| err_entries(entries.drop_last(), names, encoders, done, e, path)
        ||| ok_entries(entries.drop_last(), names, encoders, done) && err_entry(entries.last(), names, encoders, e, path)
    }
}

/// What materializing the entries gives: the nodes they materialize into, or the error of
/// the first entry that fails.
pub open spec fn entries_outcome(entries: Seq<PlanEntry>, names: ArtifactNames, encoders: Seq<BoxedEncoder>, r: Result<Seq<VfsNode>, IoError>) -> bool {
    match r {
        Ok(nodes) => ok_entries(entries, names, encoders, nodes),
        Err(e) => exists|done: Seq<VfsNode>, path: Seq<Seq<VfsNode>>| #[trigger] err_entries(entries, names, encoders, done, e, path),
    }
}

/// The nodes of a result, as a sequence.
pub open spec fn nodes_of(r: Result<Vec<VfsNode>, IoError>) -> Result<Seq<VfsNode>, IoError> {
    match r {
        Ok(v) => Ok(v@),
        Err(e) => Err(e),
    }
}

/// An error met after a prefix stays the error of every longer prefix.
proof fn lemma_error_extends(entries: Seq<PlanEntry>, names: ArtifactNames, encoders: Seq<BoxedEncoder>, m: int, done: Seq<VfsNode>, e: IoError, path: Seq<Seq<VfsNode>>)
    requires
        0 <= m <= entries.len(),
        err_entries(entries.take(m), names, encoders, done, e, path),
    ensures
        err_entries(entries, names, encoders, done, e, path),
    decreases entries.len() - m,
{
    if m < entries.len() {
        let next = entries.take(m + 1);
        assert(next.drop_last() =~= entries.take(m));
        assert(err_entries(next, names, encoders, done, e, path));
        lemma_error_extends(entries, names, encoders, m + 1, done, e, path);
    } else {
        assert(entries.take(m) =~= entries);
    }
}

/// An entry that fails after entries that materialized makes the whole list fail so.
proof fn lemma_step_error(entries: Seq<PlanEntry>, names: ArtifactNames, encoders: Seq<BoxedEncoder>, i: int, nodes: Seq<VfsNode>, e: IoError, path: Seq<Seq<VfsNode>>)
    requires
        0 <= i < entries.len(),
        ok_entries(entries.take(i), names, encoders, nodes),
        err_entry(entries[i], names, encoders, e, path),
    ensures
        err_entries(entries, names, encoders, nodes, e, path),
{
    let next = entries.take(i + 1);
    assert(next.drop_last() =~= entries.take(i));
    assert(next.last() == entries[i]);
    assert(err_entries(next, names, encoders, nodes, e, path));
    lemma_error_extends(entries, names, encoders, i + 1, nodes, e, path);
}

/// Materializes a list of plan entries into nodes that mirror them.
fn materialize_entries(entries: &[PlanEntry], names: &ArtifactNames, encoders: &[BoxedEncoder]) -> (r: Result<Vec<VfsNode>, IoError>)
    ensures
        r matches Ok(nodes) ==> nodes_mirror(entries@, nodes@),
        entries_encoder_free(entries@) ==> r is Ok,
        entries_outcome(entries@, *names, encoders@, nodes_of(r)),
    decreases entries@,
{
    proof {
        lemma_encoder_free_each(entries@);
        assert(entries@.take(0) =~= Seq::<PlanEntry>::empty());
    }
    let mut children: Vec<VfsNode> = Vec::new();
    let mut i: usize = 0;
    while i < entries.len()
        invariant
            i <= entries@.len(),
            nodes_mirror(entries@.take(i as int), children@),
            entries_encoder_free(entries@) <==> forall|j: int| 0 <= j < entries@.len() ==> entry_encoder_free(#[trigger] entries@[j]),
            ok_entries(entries@.take(i as int), *names, encoders@, children@),
        decreases entries@.len() - i,
    {
        let ghost next = entries@.take(i + 1);
        proof {
            assert(next.drop_last() =~= entries@.take(i as int));
            assert(next.last() == entries@[i as int]);
        }
        let node = match &entries[i] {
            PlanEntry::Directory(dir) => {
                proof {
                    assert(decreases_to!(entries@ => entries@[i as int]));
                }
                let nested = match materialize_entries(dir.entries.as_slice(), names, encoders) {
                    Ok(n) => n,
                    Err(e) => {
                        proof {
                            let (done, path) = choose|done: Seq<VfsNode>, path: Seq<Seq<VfsNode>>| #[trigger] err_entries(dir.entries@, *names, encoders@, done, e, path);
                            let outer = seq![done] + path;
                            assert(outer.drop_first() =~= path);
                            assert(err_entry(entries@[i as int], *names, encoders@, e, outer));
                            lemma_step_error(entries@, *names, encoders@, i as int, children@, e, outer);
                        }
                        return Err(e);
                    },
                };
                let node = VfsNode::Directory(VfsDirectory::with_children(dir.name.as_str(), nested));
                proof {
                    assert(ok_entry(entries@[i as int], *names, encoders@, node));
                }
                node
            },
            PlanEntry::File(file) => match materialize_file(file, names, encoders) {
                Ok(f) => VfsNode::File(f),
                Err(e) => {
                    proof {
                        assert(err_entry(entries@[i as int], *names, encoders@, e, Seq::empty()));
                        lemma_step_error(entries@, *names, encoders@, i as int, children@, e, Seq::empty());
                    }
                    return Err(e);
                },
            },
            PlanEntry::ArtifactSet(set) => match materialize_set(set, names, encoders) {
                Ok(d) => VfsNode::Directory(d),
                Err(e) => {
                    proof {
                        assert(err_entry(entries@[i as int], *names, encoders@, e, Seq::empty()));
                        lemma_step_error(entries@, *names, encoders@, i as int, children@, e, Seq::empty());
                    }
                    return Err(e);
                },
            },
        };
        proof {
            assert(node_mirrors(entries@[i as int], node));
            assert(ok_entry(entries@[i as int], *names, encoders@, node));
        }
        let ghost before = children@;
        children.push(node);
        proof {
            assert forall|j: int| 0 <= j < i + 1 implies node_mirrors(#[trigger] next[j], children@[j]) by {
                if j < i {
                    assert(next[j] == entries@.take(i as int)[j]);
                }
            }
            assert(children@.drop_last() =~= before);
            assert(children@.last() == node);
            assert(ok_entries(next, *names, encoders@, children@));
        }
        i = i + 1;
    }
    assert(entries@.take(entries@.len() as int) =~= entries@);
    Ok(children)
}

/// What materializing a plan with `encoders` gives: a nameless root holding what the plan's
/// entries materialize into, every artifact named as the plan last names it; or the error
/// of the first entry that fails.
pub open spec fn plan_outcome(plan: PresentationPlan, encoders: Seq<BoxedEncoder>, r: Result<VfsDirectory, IoError>) -> bool {
    exists|names: ArtifactNames|
        (forall|id: Seq<char>| #[trigger] spec_lookup(names@, id) == last_name(entries_pairs(plan.entries@), id))
        && #[trigger] root_outcome(plan.entries@, names, encoders, r)
}

/// What a nameless root of the materialized entries is, or the error met.
pub open spec fn root_outcome(entries: Seq<PlanEntry>, names: ArtifactNames, encoders: Seq<BoxedEncoder>, r: Result<VfsDirectory, IoError>) -> bool {
    match r {
        Ok(root) => root.name@.len() == 0 && entries_outcome(entries, names, encoders, Ok(root.children@)),
        Err(e) => entries_outcome(entries, names, encoders, Err(e)),
    }
}

/// Materializes a plan with the given encoders into a nameless root directory that
/// mirrors the plan.
pub fn materialize_plan_with_encoders(plan: &PresentationPlan, encoders: &[BoxedEncoder]) -> (r: Result<VfsDirectory, IoError>)
    ensures
        r matches Ok(root) ==> root.name@.len() == 0 && nodes_mirror(plan.entries@, root.children@),
        entries_encoder_free(plan.entries@) ==> r is Ok,
        plan_outcome(*plan, encoders@, r),
{
    let names = collect_artifact_names(plan.entries.as_slice());
    let children = match materialize_entries(plan.entries.as_slice(), &names, encoders) {
        Ok(c) => c,
        Err(e) => {
            proof {
                assert(entries_outcome(plan.entries@, names, encoders@, Err::<Seq<VfsNode>, IoError>(e)));
                assert(root_outcome(plan.entries@, names, encoders@, Err::<VfsDirectory, IoError>(e)));
            }
            return Err(e);
        },
    };
    let root = VfsDirectory::with_children(String::new(), children);
    proof {
        assert(entries_outcome(plan.entries@, names, encoders@, Ok::<Seq<VfsNode>, IoError>(root.children@)));
        assert(root_outcome(plan.entries@, names, encoders@, Ok::<VfsDirectory, IoError>(root)));
    }
    Ok(root)
}

/// The built-in encoders: the basic encoder the default registry holds, then the live ISO
/// encoder for logical discs.
pub fn builtin_encoders() -> (r: Vec<BoxedEncoder>)
    ensures
        r@.len() == 2,
        behaves_as(r@[0], BasicEncoder),
        behaves_as(r@[1], LogicalDiscIsoEncoder),
{
    let mut encoders: Vec<BoxedEncoder> = Vec::new();
    encoders.push(BuiltinEncoderFactory::Basic.create());
    encoders.push(BuiltinEncoderFactory::LogicalDiscIso.create());
    encoders
}

/// Materializes a plan with the built-in encoders.
pub fn materialize_plan(plan: &PresentationPlan) -> (r: Result<VfsDirectory, IoError>)
    ensures
        r matches Ok(root) ==> root.name@.len() == 0 && nodes_mirror(plan.entries@, root.children@),
        entries_encoder_free(plan.entries@) ==> r is Ok,
        exists|encoders: Seq<BoxedEncoder>| encoders.len() == 2 && behaves_as(encoders[0], BasicEncoder)
            && behaves_as(encoders[1], LogicalDiscIsoEncoder) && #[trigger] plan_outcome(*plan, encoders, r),
{
    let encoders = builtin_encoders();
    materialize_plan_with_encoders(plan, encoders.as_slice())
}

/// Materializes a plan with the built-in encoders followed by one encoder per registered
/// plugin; a plugin whose encoder cannot be built fails the whole plan with kind `Other`.
pub fn materialize_plan_with_plugins<C: EncoderPluginClient + Clone + 'static>(
    plan: &PresentationPlan,
    plugin_registry: &PluginRegistry<C>,
) -> (r: Result<VfsDirectory, IoError>)
    ensures
        r matches Ok(root) ==> root.name@.len() == 0 && nodes_mirror(plan.entries@, root.children@),
        entries_encoder_free(plan.entries@) && plugin_registry@.len() == 0 ==> r is Ok,
        (r matches Err(e) && e.kind == std::io::ErrorKind::Other) || exists|encoders: Seq<BoxedEncoder>| {
            &&& encoders.len() == 2 + plugin_registry@.len()
            &&& behaves_as(encoders[0], BasicEncoder)
            &&& behaves_as(encoders[1], LogicalDiscIsoEncoder)
            &&& forall|i: int| 0 <= i < plugin_registry@.len() ==> #[trigger] built_for(encoders[2 + i], plugin_registry@[i])
            &&& #[trigger] plan_outcome(*plan, encoders, r)
        },
{
    let mut encoders = builtin_encoders();
    let mut plugin_encoders = match plugin_registry.build_encoders() {
        Ok(e) => e,
        Err(e) => {
            return Err(IoError::new(std::io::ErrorKind::Other, protocol_error_text(&e)));
        },
    };
    let ghost builtin = encoders@;
    let ghost plugins = plugin_encoders@;
    encoders.append(&mut plugin_encoders);
    proof {
        assert(encoders@ == builtin + plugins);
        assert forall|i: int| 0 <= i < plugin_registry@.len() implies #[trigger] built_for(encoders@[2 + i], plugin_registry@[i]) by {
            assert(encoders@[2 + i] == plugins[i]);
        }
    }
    materialize_plan_with_encoders(plan, encoders.as_slice())
}

} // verus!
