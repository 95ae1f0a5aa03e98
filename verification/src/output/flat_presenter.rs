//! The flat layout: every artifact at the root, multi-disc games with a playlist.
use vstd::prelude::*;

use crate::model::content::{spec_content_id, BytesContent, DiscPart, GameContent, GamePart, NormalizedContent, TextContent};
use crate::model::source::spec_file_name;
use crate::output::capabilities::{CapabilityRequirements, ContentType, Format};
use crate::output::plan::{
    ArtifactId, ArtifactReference, ArtifactRequest, GeneratedArtifact, PlanEntry, PlanFile, PlannedArtifactKind,
    PlaylistArtifact, PresentationPlan, SourceArtifact, SourceArtifactInput,
};
use crate::output::present::OutputPresenter;
use crate::output::presentation_compile::{disc_artifact_id, disc_id, entry_names};
use crate::output::presentation_expansion::{is_multi_disc_game, positions, sorted_disc_entries, sorted_positions, spec_is_multi_disc};
use crate::model::source::SourceRef;
use crate::policy::{texts, ConflictPolicy, FormattingPolicy, NamingPolicy, PolicySet};
use crate::text::{concat2, concat3, contains_char};

verus! {

/// Requirements of a content type and format with no feature constraints.
pub open spec fn plain_requirements(r: CapabilityRequirements, content_type: ContentType, format: Option<Format>) -> bool {
    &&& r.content_type == content_type
    &&& r.format == format
    &&& r.required_features@.len() == 0
    &&& r.preferred_features@.len() == 0
    &&& r.forbidden_features@.len() == 0
}

/// Whether a planned file is backed by exactly one source of the given size.
pub open spec fn single_source(kind: PlannedArtifactKind, source: SourceRef, size: u64) -> bool {
    kind matches PlannedArtifactKind::SourceBacked(a) && a.inputs@ == seq![SourceArtifactInput { source, size }]
}

/// The proposed file name of loose text: its source file name, given `.txt` when it has no `.`.
pub open spec fn spec_text_file_name(text: TextContent) -> Seq<char> {
    let name = spec_file_name(text.source.0@);
    if name.contains('.') { name } else { name + ".txt"@ }
}

/// The names taken after the discs at `sorted` positions are named by part in turn.
pub open spec fn disc_name_chain<N: NamingPolicy, C: ConflictPolicy>(
    game: GameContent,
    naming: N,
    conflict: C,
    names: Seq<Seq<char>>,
    sorted: Seq<int>,
) -> Seq<Seq<char>>
    decreases sorted.len(),
{
    if sorted.len() == 0 {
        names
    } else {
        let before = disc_name_chain(game, naming, conflict, names, sorted.drop_last());
        before.push(conflict.resolved(naming.part_name_of(game, game.parts@[sorted.last()]), before))
    }
}

/// What the flat layout adds for one game: one file, or one file per disc then a playlist.
pub open spec fn game_step<N: NamingPolicy, C: ConflictPolicy>(
    game: GameContent,
    naming: N,
    conflict: C,
    names: Seq<Seq<char>>,
    added: Seq<PlanEntry>,
) -> bool {
    if spec_is_multi_disc(game) {
        let sorted = sorted_positions(game.parts@, game.parts@.len() as int);
        let chain = disc_name_chain(game, naming, conflict, names, sorted);
        &&& added.len() == sorted.len() + 1
        &&& forall|k: int| #![trigger added[k]] 0 <= k < sorted.len() ==> {
            let disc = game.parts@[sorted[k]]->Disc_0;
            &&& added[k] matches PlanEntry::File(f)
            &&& f.name@ == chain[names.len() + k]
            &&& f.artifact.id.0@ == disc_artifact_id(game, disc.disc_number)
            &&& single_source(f.artifact.kind, disc.source, 0)
            &&& plain_requirements(f.artifact.requirements, ContentType::Disc, Some(Format::Bin))
        }
        &&& added.last() matches PlanEntry::File(f)
        &&& f.name@ == conflict.resolved(naming.playlist_name_of(game), chain)
        &&& f.artifact.id.0@ == "game:"@ + game.id.0@ + ":playlist"@
        &&& plain_requirements(f.artifact.requirements, ContentType::Playlist, Some(Format::M3u))
        &&& f.artifact.kind matches PlannedArtifactKind::Generated(GeneratedArtifact::Playlist(p))
        &&& p.entries@.len() == sorted.len()
        &&& forall|k: int| 0 <= k < sorted.len() ==> (#[trigger] p.entries@[k]).artifact_id.0@
            == disc_artifact_id(game, game.parts@[sorted[k]]->Disc_0.disc_number)
    } else {
        let proposed = if game.parts@.len() > 0 { naming.part_name_of(game, game.parts@[0]) } else { naming.game_name_of(game) };
        &&& added.len() == 1
        &&& added[0] matches PlanEntry::File(f)
        &&& f.name@ == conflict.resolved(proposed, names)
        &&& f.artifact.id.0@ == "game:"@ + game.id.0@
        &&& if game.parts@.len() == 0 {
            single_source(f.artifact.kind, game.source, 0) && plain_requirements(f.artifact.requirements, ContentType::Game, None)
        } else {
            match game.parts@[0] {
                GamePart::Rom(rom) => single_source(f.artifact.kind, rom.source, rom.size)
                    && plain_requirements(f.artifact.requirements, ContentType::Rom, Some(Format::Bin)),
                GamePart::Disc(disc) => single_source(f.artifact.kind, disc.source, 0)
                    && plain_requirements(f.artifact.requirements, ContentType::Disc, Some(Format::Bin)),
            }
        }
    }
}

/// What the flat layout adds for one item next to the names already at the root.
pub open spec fn item_step<N: NamingPolicy, C: ConflictPolicy>(
    item: NormalizedContent,
    naming: N,
    conflict: C,
    before: Seq<PlanEntry>,
    after: Seq<PlanEntry>,
) -> bool {
    let names = entry_names(before);
    let added = after.subrange(before.len() as int, after.len() as int);
    &&& before.len() <= after.len()
    &&& after.subrange(0, before.len() as int) == before
    &&& match item {
        NormalizedContent::Game(g) => game_step(g, naming, conflict, names, added),
        NormalizedContent::Bytes(b) => {
            &&& added.len() == 1
            &&& added[0] matches PlanEntry::File(f)
            &&& f.name@ == conflict.resolved(spec_file_name(b.source.0@) + ".bin"@, names)
            &&& f.artifact.id.0@ == "bytes:"@ + b.id.0@
            &&& single_source(f.artifact.kind, b.source, b.size)
            &&& plain_requirements(f.artifact.requirements, ContentType::Bytes, Some(Format::Bin))
        },
        NormalizedContent::Text(t) => {
            &&& added.len() == 1
            &&& added[0] matches PlanEntry::File(f)
            &&& f.name@ == conflict.resolved(spec_text_file_name(t), names)
            &&& f.artifact.id.0@ == "text:"@ + t.id.0@
            &&& single_source(f.artifact.kind, t.source, t.size)
            &&& plain_requirements(f.artifact.requirements, ContentType::Text, Some(Format::Text))
        },
    }
}

/// Whether `states` records the flat layout of `items`: empty at first, each item's
/// entries appended to the previous ones.
pub open spec fn flat_states<N: NamingPolicy, C: ConflictPolicy>(
    items: Seq<NormalizedContent>,
    naming: N,
    conflict: C,
    states: Seq<Seq<PlanEntry>>,
) -> bool {
    &&& states.len() == items.len() + 1
    &&& states[0] == Seq::<PlanEntry>::empty()
    &&& forall|i: int| 0 <= i < items.len() ==> item_step(#[trigger] items[i], naming, conflict, states[i], states[i + 1])
}

pub struct FlatPresenter;

impl FlatPresenter {
    pub fn new() -> (r: Self) {
        FlatPresenter
    }
}

impl Default for FlatPresenter {
    fn default() -> (r: Self) {
        FlatPresenter::new()
    }
}

pub(crate) fn requirements(content_type: ContentType, format: Option<Format>) -> (r: CapabilityRequirements)
    ensures
        plain_requirements(r, content_type, format),
{
    let r = CapabilityRequirements::new(content_type);
    match format {
        Some(f) => r.with_format(f),
        None => r,
    }
}

pub(crate) fn push_file<N: NamingPolicy, F: FormattingPolicy, C: ConflictPolicy>(
    entries: &mut Vec<PlanEntry>,
    names: &mut Vec<String>,
    proposed: &str,
    artifact: ArtifactRequest,
    policy: &PolicySet<N, F, C>,
)
    requires
        texts(old(names)@) == entry_names(old(entries)@),
    ensures
        final(entries)@.len() == old(entries)@.len() + 1,
        final(entries)@.drop_last() == old(entries)@,
        final(entries)@.last() matches PlanEntry::File(f) && f.name@ == policy.conflict.resolved(proposed@, entry_names(old(entries)@))
            && f.artifact == artifact,
        texts(final(names)@) == entry_names(final(entries)@),
{
    let name = policy.resolve_name_conflict(proposed, names.as_slice());
    let ghost before_names = names@;
    let ghost before = entries@;
    names.push(name.clone());
    entries.push(PlanEntry::File(PlanFile::new(name, artifact)));
    proof {
        assert(entries@.drop_last() =~= before);
        assert(texts(names@) =~= texts(before_names).push(name@));
        assert(entry_names(entries@) =~= entry_names(before).push(name@));
    }
}

/// Appends the files of one game: its single file, or one file per disc then a playlist,
/// each named by the conflict policy next to the names already taken.
pub(crate) fn add_game_entries<N: NamingPolicy, F: FormattingPolicy, C: ConflictPolicy>(
        game: &GameContent,
        policy: &PolicySet<N, F, C>,
        names: &mut Vec<String>,
        entries: &mut Vec<PlanEntry>,
    )
        requires
            texts(old(names)@) == entry_names(old(entries)@),
        ensures
            texts(final(names)@) == entry_names(final(entries)@),
            old(entries)@.len() <= final(entries)@.len(),
            final(entries)@.subrange(0, old(entries)@.len() as int) == old(entries)@,
            game_step(*game, policy.naming, policy.conflict, entry_names(old(entries)@),
                final(entries)@.subrange(old(entries)@.len() as int, final(entries)@.len() as int)),
    {
        let ghost start = entries@;
        if is_multi_disc_game(game) {
            add_multi_disc_game_entries(game, policy, names, entries);
            return;
        }
        let id = ArtifactId::new(concat2("game:", game.id.0.as_str()));
        if game.parts.len() > 0 {
            let proposed = policy.naming.part_name(game, &game.parts[0]);
            let artifact = match &game.parts[0] {
                GamePart::Rom(rom) => ArtifactRequest::new(
                    id,
                    PlannedArtifactKind::SourceBacked(SourceArtifact::single(rom.source.clone(), rom.size)),
                    requirements(ContentType::Rom, Some(Format::Bin)),
                ),
                GamePart::Disc(disc) => ArtifactRequest::new(
                    id,
                    PlannedArtifactKind::SourceBacked(SourceArtifact::single(disc.source.clone(), 0)),
                    requirements(ContentType::Disc, Some(Format::Bin)),
                ),
            };
            push_file(entries, names, proposed.as_str(), artifact, policy);
        } else {
            let proposed = policy.naming.game_name(game);
            let artifact = ArtifactRequest::new(
                id,
                PlannedArtifactKind::SourceBacked(SourceArtifact::single(game.source.clone(), 0)),
                requirements(ContentType::Game, None),
            );
            push_file(entries, names, proposed.as_str(), artifact, policy);
        }
        proof {
            assert(entries@.subrange(0, start.len() as int) =~= start);
            assert(entries@.subrange(start.len() as int, entries@.len() as int) =~= seq![entries@.last()]);
        }
    }

fn add_multi_disc_game_entries<N: NamingPolicy, F: FormattingPolicy, C: ConflictPolicy>(
        game: &GameContent,
        policy: &PolicySet<N, F, C>,
        names: &mut Vec<String>,
        entries: &mut Vec<PlanEntry>,
    )
        requires
            texts(old(names)@) == entry_names(old(entries)@),
            spec_is_multi_disc(*game),
        ensures
            texts(final(names)@) == entry_names(final(entries)@),
            old(entries)@.len() <= final(entries)@.len(),
            final(entries)@.subrange(0, old(entries)@.len() as int) == old(entries)@,
            game_step(*game, policy.naming, policy.conflict, entry_names(old(entries)@),
                final(entries)@.subrange(old(entries)@.len() as int, final(entries)@.len() as int)),
    {
        let ghost start = entries@;
        let ghost start_names = entry_names(start);
        let sorted = sorted_disc_entries(game);
        let ghost order = sorted_positions(game.parts@, game.parts@.len() as int);
        let mut references: Vec<ArtifactReference> = Vec::new();
        let mut k: usize = 0;
        while k < sorted.len()
            invariant
                k <= sorted@.len(),
                order == positions(sorted@),
                forall|i: int| 0 <= i < sorted@.len() ==> (#[trigger] sorted@[i]).0 < game.parts@.len()
                    && game.parts@[sorted@[i].0 as int] == GamePart::Disc(*sorted@[i].1),
                texts(names@) == entry_names(entries@),
                start.len() + k == entries@.len(),
                entries@.subrange(0, start.len() as int) == start,
                entry_names(entries@) == disc_name_chain(*game, policy.naming, policy.conflict, start_names, order.take(k as int)),
                references@.len() == k,
                forall|j: int| #![trigger entries@[start.len() + j]] 0 <= j < k ==> {
                    let disc = game.parts@[order[j]]->Disc_0;
                    &&& entries@[start.len() + j] matches PlanEntry::File(f)
                    &&& f.artifact.id.0@ == disc_artifact_id(*game, disc.disc_number)
                    &&& single_source(f.artifact.kind, disc.source, 0)
                    &&& plain_requirements(f.artifact.requirements, ContentType::Disc, Some(Format::Bin))
                },
                forall|j: int| 0 <= j < k ==> (#[trigger] references@[j]).artifact_id.0@
                    == disc_artifact_id(*game, game.parts@[order[j]]->Disc_0.disc_number),
            decreases sorted@.len() - k,
        {
            let (pos, disc) = sorted[k];
            let proposed = policy.naming.part_name(game, &game.parts[pos]);
            let id = disc_id(game, disc.disc_number);
            references.push(ArtifactReference::new(id.clone()));
            let artifact = ArtifactRequest::new(
                id,
                PlannedArtifactKind::SourceBacked(SourceArtifact::single(disc.source.clone(), 0)),
                requirements(ContentType::Disc, Some(Format::Bin)),
            );
            let ghost before = entries@;
            push_file(entries, names, proposed.as_str(), artifact, policy);
            proof {
                assert(order[k as int] == pos as int);
                assert(order.take(k + 1).drop_last() =~= order.take(k as int));
                assert(order.take(k + 1).last() == pos as int);
                assert(entries@.subrange(0, start.len() as int) =~= start) by {
                    assert(entries@.drop_last() == before);
                }
                assert forall|j: int| #![trigger entries@[start.len() + j]] 0 <= j < k + 1 implies {
                    let d = game.parts@[order[j]]->Disc_0;
                    &&& entries@[start.len() + j] matches PlanEntry::File(f)
                    &&& f.artifact.id.0@ == disc_artifact_id(*game, d.disc_number)
                    &&& single_source(f.artifact.kind, d.source, 0)
                    &&& plain_requirements(f.artifact.requirements, ContentType::Disc, Some(Format::Bin))
                } by {
                    if j < k {
                        assert(entries@[start.len() + j] == before[start.len() + j]);
                    }
                }
            }
            k = k + 1;
        }
        proof {
            assert(order.take(order.len() as int) =~= order);
        }
        let ghost chain = entry_names(entries@);
        let playlist_proposed = policy.naming.playlist_name(game);
        let artifact = ArtifactRequest::new(
            ArtifactId::new(concat3("game:", game.id.0.as_str(), ":playlist")),
            PlannedArtifactKind::Generated(GeneratedArtifact::Playlist(PlaylistArtifact::new(references))),
            requirements(ContentType::Playlist, Some(Format::M3u)),
        );
        let ghost before = entries@;
        push_file(entries, names, playlist_proposed.as_str(), artifact, policy);
        proof {
            let added = entries@.subrange(start.len() as int, entries@.len() as int);
            assert(entries@.subrange(0, start.len() as int) =~= start) by {
                assert(entries@.drop_last() == before);
                assert(before.subrange(0, start.len() as int) == start);
            }
            assert forall|j: int| 0 <= j < order.len() implies added[j] == before[start.len() + j] by {}
            assert forall|k: int| #![trigger added[k]] 0 <= k < order.len() implies {
                let disc = game.parts@[order[k]]->Disc_0;
                &&& added[k] matches PlanEntry::File(f)
                &&& f.name@ == chain[start_names.len() + k]
                &&& f.artifact.id.0@ == disc_artifact_id(*game, disc.disc_number)
                &&& single_source(f.artifact.kind, disc.source, 0)
                &&& plain_requirements(f.artifact.requirements, ContentType::Disc, Some(Format::Bin))
            } by {
                assert(added[k] == before[start.len() + k]);
                assert(chain[start_names.len() + k] == crate::output::plan::spec_entry_name(before[start.len() + k]));
            }
            assert(added.last() == entries@.last());
        }
    }

impl FlatPresenter {
    fn build_root_entries<N: NamingPolicy, F: FormattingPolicy, C: ConflictPolicy>(
        &self,
        content: &[NormalizedContent],
        policy: &PolicySet<N, F, C>,
    ) -> (r: Vec<PlanEntry>)
        ensures
            exists|states: Seq<Seq<PlanEntry>>| flat_states(content@, policy.naming, policy.conflict, states)
                && #[trigger] states.last() == r@,
    {
        let mut names: Vec<String> = Vec::new();
        let mut entries: Vec<PlanEntry> = Vec::new();
        let ghost mut states: Seq<Seq<PlanEntry>> = seq![Seq::<PlanEntry>::empty()];
        assert(texts(names@) =~= entry_names(entries@));
        let mut i: usize = 0;
        while i < content.len()
            invariant
                i <= content@.len(),
                texts(names@) == entry_names(entries@),
                flat_states(content@.take(i as int), policy.naming, policy.conflict, states),
                states.last() == entries@,
            decreases content@.len() - i,
        {
            let ghost before = entries@;
            match &content[i] {
                NormalizedContent::Game(game) => {
                    add_game_entries(game, policy, &mut names, &mut entries);
                },
                NormalizedContent::Bytes(bytes) => {
                    let file_name = bytes.source.file_name();
                    let proposed = concat2(file_name.as_str(), ".bin");
                    let artifact = ArtifactRequest::new(
                        ArtifactId::new(concat2("bytes:", bytes.id.0.as_str())),
                        PlannedArtifactKind::SourceBacked(SourceArtifact::single(bytes.source.clone(), bytes.size)),
                        requirements(ContentType::Bytes, Some(Format::Bin)),
                    );
                    push_file(&mut entries, &mut names, proposed.as_str(), artifact, policy);
                    proof {
                        assert(entries@.subrange(0, before.len() as int) =~= before);
                        assert(entries@.subrange(before.len() as int, entries@.len() as int) =~= seq![entries@.last()]);
                    }
                },
                NormalizedContent::Text(text) => {
                    let proposed = text_file_name(text);
                    let artifact = ArtifactRequest::new(
                        ArtifactId::new(concat2("text:", text.id.0.as_str())),
                        PlannedArtifactKind::SourceBacked(SourceArtifact::single(text.source.clone(), text.size)),
                        requirements(ContentType::Text, Some(Format::Text)),
                    );
                    push_file(&mut entries, &mut names, proposed.as_str(), artifact, policy);
                    proof {
                        assert(entries@.subrange(0, before.len() as int) =~= before);
                        assert(entries@.subrange(before.len() as int, entries@.len() as int) =~= seq![entries@.last()]);
                    }
                },
            }
            proof {
                let old_states = states;
                states = states.push(entries@);
                let items = content@.take(i + 1);
                assert(items.take(i as int) =~= content@.take(i as int));
                assert forall|a: int| 0 <= a < items.len() implies item_step(#[trigger] items[a], policy.naming, policy.conflict, states[a], states[a + 1]) by {
                    if a < i {
                        assert(items[a] == content@.take(i as int)[a]);
                        assert(states[a] == old_states[a] && states[a + 1] == old_states[a + 1]);
                    } else {
                        assert(states[a] == before);
                    }
                }
            }
            i = i + 1;
        }
        assert(content@.take(content@.len() as int) =~= content@);
        entries
    }
}

/// The file name of loose text content.
pub(crate) fn text_file_name(text: &TextContent) -> (r: String)
    ensures
        r@ == spec_text_file_name(*text),
{
    let file_name = text.source.file_name();
    if contains_char(file_name.as_str(), '.') {
        file_name
    } else {
        concat2(file_name.as_str(), ".txt")
    }
}

impl OutputPresenter for FlatPresenter {
    fn present<N: NamingPolicy, F: FormattingPolicy, C: ConflictPolicy>(
        &self,
        content: &[NormalizedContent],
        policy: &PolicySet<N, F, C>,
    ) -> (r: PresentationPlan)
        ensures
            exists|states: Seq<Seq<PlanEntry>>| flat_states(content@, policy.naming, policy.conflict, states)
                && #[trigger] states.last() == r.entries@,
    {
        PresentationPlan::new(self.build_root_entries(content, policy))
    }
}

} // verus!
