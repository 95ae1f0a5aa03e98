//! The library layout: a directory per platform holding a directory per game; loose
//! bytes and text under the directories their ids name.
use vstd::prelude::*;

use crate::model::content::{BytesContent, GameContent, NormalizedContent, TextContent};
use crate::model::source::spec_file_name;
use crate::output::capabilities::{ContentType, Format};
use crate::output::encode::OutputEncoder;
use crate::output::flat_presenter::{
    add_game_entries, game_step, plain_requirements, push_file, requirements, single_source, spec_text_file_name, text_file_name,
};
use crate::output::plan::{ArtifactId, ArtifactRequest, PlanDirectory, PlanEntry, PlannedArtifactKind, PresentationPlan, SourceArtifact};
use crate::output::present::OutputPresenter;
use crate::output::presentation_compile::{
    child_ensured, child_names, dir_named, dir_replaced, distinct_child_added, directory_index, ensure_child, entry_names, first_dir, lemma_first_dir, new_dir,
    spec_split_parent_dirs, split_parent_dirs,
};
use crate::policy::{texts, ConflictPolicy, FormattingPolicy, NamingPolicy, PolicySet};
use crate::text::concat2;

verus! {

pub struct GroupedPresenter;

impl GroupedPresenter {
    /// The encoder is not consulted: the layout alone decides the plan.
    pub fn new(encoder: Box<dyn OutputEncoder>) -> (r: Self) {
        GroupedPresenter
    }
}

/// What a game adds to its platform directory's entries: a new directory under the
/// conflict policy's name for `title`, then the game's files appended to the first
/// directory of that name.
pub open spec fn game_dir_filled<N: NamingPolicy, C: ConflictPolicy>(
    game: GameContent,
    naming: N,
    conflict: C,
    title: Seq<char>,
    before: Seq<PlanEntry>,
    after: Seq<PlanEntry>,
) -> bool {
    exists|mid: Seq<PlanEntry>, g: int, inner: Seq<PlanEntry>, added: Seq<PlanEntry>|
        #![trigger distinct_child_added(conflict, before, title, mid, g), game_step(game, naming, conflict, entry_names(inner), added)]
        distinct_child_added(conflict, before, title, mid, g)
        && dir_replaced(mid, g, inner, inner + added, after)
        && game_step(game, naming, conflict, entry_names(inner), added)
}

/// What a game adds to the root: its platform directory, found or added, holds the game's
/// directory.
pub open spec fn game_placed<N: NamingPolicy, F: FormattingPolicy, C: ConflictPolicy>(
    game: GameContent,
    naming: N,
    formatting: F,
    conflict: C,
    before: Seq<PlanEntry>,
    after: Seq<PlanEntry>,
) -> bool {
    let platform = formatting.formatted(naming.platform_name_of(game.platform));
    let title = formatting.formatted(naming.game_name_of(game));
    exists|root: Seq<PlanEntry>, p: int, inner: Seq<PlanEntry>, inner_after: Seq<PlanEntry>|
        #![trigger child_ensured(conflict, before, platform, root, p), game_dir_filled(game, naming, conflict, title, inner, inner_after)]
        child_ensured(conflict, before, platform, root, p)
        && dir_replaced(root, p, inner, inner_after, after)
        && game_dir_filled(game, naming, conflict, title, inner, inner_after)
}

/// What a loose file adds below the directories `parents[depth..]`, each found or added in
/// turn: one file under the conflict policy's name for `proposed`.
pub open spec fn loose_placed<C: ConflictPolicy>(
    conflict: C,
    parents: Seq<Seq<char>>,
    depth: int,
    proposed: Seq<char>,
    artifact: ArtifactRequest,
    before: Seq<PlanEntry>,
    after: Seq<PlanEntry>,
) -> bool
    decreases parents.len() - depth,
{
    if depth >= parents.len() {
        &&& after.len() == before.len() + 1
        &&& after.drop_last() == before
        &&& after.last() matches PlanEntry::File(f)
        &&& f.name@ == conflict.resolved(proposed, entry_names(before))
        &&& f.artifact == artifact
    } else {
        exists|root: Seq<PlanEntry>, i: int, inner: Seq<PlanEntry>, inner_after: Seq<PlanEntry>|
            #![trigger child_ensured(conflict, before, parents[depth], root, i), dir_replaced(root, i, inner, inner_after, after)]
            child_ensured(conflict, before, parents[depth], root, i)
            && dir_replaced(root, i, inner, inner_after, after)
            && loose_placed(conflict, parents, depth + 1, proposed, artifact, inner, inner_after)
    }
}

/// Where loose bytes go: below the parent directories of their id, as `<source name>.bin`.
pub open spec fn bytes_placed<C: ConflictPolicy>(bytes: BytesContent, conflict: C, before: Seq<PlanEntry>, after: Seq<PlanEntry>) -> bool {
    exists|artifact: ArtifactRequest|
        #![trigger loose_placed(conflict, spec_split_parent_dirs(bytes.id.0@).0, 0, spec_file_name(bytes.source.0@) + ".bin"@, artifact, before, after)]
        artifact.id.0@ == "bytes:"@ + bytes.id.0@
        && single_source(artifact.kind, bytes.source, bytes.size)
        && plain_requirements(artifact.requirements, ContentType::Bytes, Some(Format::Bin))
        && loose_placed(conflict, spec_split_parent_dirs(bytes.id.0@).0, 0, spec_file_name(bytes.source.0@) + ".bin"@, artifact, before, after)
}

/// Where loose text goes: below the parent directories of its id, under its text file name.
pub open spec fn text_placed<C: ConflictPolicy>(text: TextContent, conflict: C, before: Seq<PlanEntry>, after: Seq<PlanEntry>) -> bool {
    exists|artifact: ArtifactRequest|
        #![trigger loose_placed(conflict, spec_split_parent_dirs(text.id.0@).0, 0, spec_text_file_name(text), artifact, before, after)]
        artifact.id.0@ == "text:"@ + text.id.0@
        && single_source(artifact.kind, text.source, text.size)
        && plain_requirements(artifact.requirements, ContentType::Text, Some(Format::Text))
        && loose_placed(conflict, spec_split_parent_dirs(text.id.0@).0, 0, spec_text_file_name(text), artifact, before, after)
}

/// Whether `states` records the library layout of `items`: empty at first, then every
/// game placed in content order, then every loose bytes or text item in content order.
pub open spec fn grouped_states<N: NamingPolicy, F: FormattingPolicy, C: ConflictPolicy>(
    items: Seq<NormalizedContent>,
    naming: N,
    formatting: F,
    conflict: C,
    states: Seq<Seq<PlanEntry>>,
) -> bool {
    let n = items.len() as int;
    &&& states.len() == 2 * n + 1
    &&& states[0] == Seq::<PlanEntry>::empty()
    &&& forall|i: int| 0 <= i < n ==> match #[trigger] items[i] {
        NormalizedContent::Game(g) => game_placed(g, naming, formatting, conflict, states[i], states[i + 1]),
        _ => states[i + 1] == states[i],
    }
    &&& forall|i: int| 0 <= i < n ==> match #[trigger] items[i] {
        NormalizedContent::Game(_) => states[n + i + 1] == states[n + i],
        NormalizedContent::Bytes(b) => bytes_placed(b, conflict, states[n + i], states[n + i + 1]),
        NormalizedContent::Text(t) => text_placed(t, conflict, states[n + i], states[n + i + 1]),
    }
}

/// Adds a child directory under the conflict policy's name for `proposed`, even next to a
/// directory of that name, and gives the index of the first directory of that name.
pub(crate) fn ensure_distinct_child<N: NamingPolicy, F: FormattingPolicy, C: ConflictPolicy>(
    directory: &mut PlanDirectory,
    proposed: &str,
    policy: &PolicySet<N, F, C>,
) -> (r: usize)
    ensures
        final(directory).name == old(directory).name,
        final(directory).entries@.len() == old(directory).entries@.len() + 1,
        final(directory).entries@.drop_last() == old(directory).entries@,
        final(directory).entries@.last() matches PlanEntry::Directory(d)
            && d.name@ == policy.conflict.resolved(proposed@, entry_names(old(directory).entries@)),
        r < final(directory).entries@.len(),
        final(directory).entries@[r as int] matches PlanEntry::Directory(d)
            && d.name@ == policy.conflict.resolved(proposed@, entry_names(old(directory).entries@)),
        distinct_child_added(policy.conflict, old(directory).entries@, proposed@, final(directory).entries@, r as int),
{
    let existing = child_names(directory);
    let resolved = policy.resolve_name_conflict(proposed, existing.as_slice());
    let ghost before = directory.entries@;
    directory.entries.push(PlanEntry::Directory(PlanDirectory::new(resolved.as_str(), Vec::new())));
    assert(directory.entries@.drop_last() =~= before);
    let last = directory.entries.len() - 1;
    match directory_index(directory, resolved.as_str()) {
        Some(i) => i,
        None => {
            proof {
                lemma_first_dir(directory.entries@, resolved@);
                assert(dir_named(directory.entries@[last as int], resolved@));
            }
            last
        },
    }
}

/// Appends a game's files to a game directory, named next to what it holds.
fn fill_game_directory<N: NamingPolicy, F: FormattingPolicy, C: ConflictPolicy>(
    directory: &mut PlanDirectory,
    game: &GameContent,
    policy: &PolicySet<N, F, C>,
)
    ensures
        final(directory).name == old(directory).name,
        old(directory).entries@.len() <= final(directory).entries@.len(),
        final(directory).entries@ == old(directory).entries@
            + final(directory).entries@.subrange(old(directory).entries@.len() as int, final(directory).entries@.len() as int),
        game_step(*game, policy.naming, policy.conflict, entry_names(old(directory).entries@),
            final(directory).entries@.subrange(old(directory).entries@.len() as int, final(directory).entries@.len() as int)),
{
    let ghost before = directory.entries@;
    let mut names = child_names(directory);
    add_game_entries(game, policy, &mut names, &mut directory.entries);
    proof {
        assert(directory.entries@ =~= before + directory.entries@.subrange(before.len() as int, directory.entries@.len() as int));
    }
}

/// Places a game under its platform directory, in a directory of its own.
fn insert_game_node<N: NamingPolicy, F: FormattingPolicy, C: ConflictPolicy>(
    root: &mut PlanDirectory,
    game: &GameContent,
    policy: &PolicySet<N, F, C>,
)
    ensures
        final(root).name == old(root).name,
        game_placed(*game, policy.naming, policy.formatting, policy.conflict, old(root).entries@, final(root).entries@),
{
    let platform_raw = policy.naming.platform_name(&game.platform);
    let platform_name = policy.format_name(platform_raw.as_str());
    let game_raw = policy.naming.game_name(game);
    let game_name = policy.format_name(game_raw.as_str());
    let ghost before = root.entries@;
    let p = ensure_child(root, platform_name.as_str(), policy);
    let ghost root1 = root.entries@;
    let mut taken = PlanEntry::Directory(PlanDirectory::new("", Vec::new()));
    std::mem::swap(&mut taken, &mut root.entries[p]);
    match taken {
        PlanEntry::Directory(mut platform_dir) => {
            let ghost inner = platform_dir.entries@;
            let ghost platform_name_kept = platform_dir.name;
            let g = ensure_distinct_child(&mut platform_dir, game_name.as_str(), policy);
            let ghost mid = platform_dir.entries@;
            proof {
                lemma_first_dir(mid, policy.conflict.resolved(game_name@, entry_names(inner)));
            }
            let mut game_entry = PlanEntry::Directory(PlanDirectory::new("", Vec::new()));
            std::mem::swap(&mut game_entry, &mut platform_dir.entries[g]);
            match game_entry {
                PlanEntry::Directory(mut game_dir) => {
                    let ghost game_inner = game_dir.entries@;
                    let ghost game_dir_name = game_dir.name;
                    fill_game_directory(&mut game_dir, game, policy);
                    let ghost added = game_dir.entries@.subrange(game_inner.len() as int, game_dir.entries@.len() as int);
                    platform_dir.entries.set(g, PlanEntry::Directory(game_dir));
                    proof {
                        let platform_after = platform_dir.entries@;
                        assert(game_dir.entries@ == game_inner + added);
                        assert(dir_replaced(mid, g as int, game_inner, game_inner + added, platform_after));
                        assert(game_dir_filled(*game, policy.naming, policy.conflict, game_name@, inner, platform_after));
                    }
                },
                other => {
                    proof {
                        assert(false);
                    }
                    platform_dir.entries.set(g, other);
                },
            }
            root.entries.set(p, PlanEntry::Directory(platform_dir));
            proof {
                let after = root.entries@;
                assert(dir_replaced(root1, p as int, inner, platform_dir.entries@, after));
                assert(game_placed(*game, policy.naming, policy.formatting, policy.conflict, before, after));
            }
        },
        other => {
            proof {
                assert(false);
            }
            root.entries.set(p, other);
        },
    }
}

/// Appends one loose file, named next to what the directory holds.
fn add_loose_file<N: NamingPolicy, F: FormattingPolicy, C: ConflictPolicy>(
    directory: &mut PlanDirectory,
    proposed: &str,
    artifact: ArtifactRequest,
    policy: &PolicySet<N, F, C>,
)
    ensures
        final(directory).name == old(directory).name,
        final(directory).entries@.len() == old(directory).entries@.len() + 1,
        final(directory).entries@.drop_last() == old(directory).entries@,
        final(directory).entries@.last() matches PlanEntry::File(f)
            && f.name@ == policy.conflict.resolved(proposed@, entry_names(old(directory).entries@)) && f.artifact == artifact,
{
    let mut names = child_names(directory);
    push_file(&mut directory.entries, &mut names, proposed, artifact, policy);
}

/// Navigates the directory path `parents[depth..]`, creating what is missing, and there
/// appends one loose file.
fn insert_loose_at<N: NamingPolicy, F: FormattingPolicy, C: ConflictPolicy>(
    directory: &mut PlanDirectory,
    parents: &[String],
    depth: usize,
    proposed: &str,
    artifact: ArtifactRequest,
    policy: &PolicySet<N, F, C>,
)
    requires
        depth <= parents@.len(),
    ensures
        final(directory).name == old(directory).name,
        loose_placed(policy.conflict, texts(parents@), depth as int, proposed@, artifact, old(directory).entries@, final(directory).entries@),
    decreases parents@.len() - depth,
{
    if depth == parents.len() {
        add_loose_file(directory, proposed, artifact, policy);
        return;
    }
    let ghost before = directory.entries@;
    let index = ensure_child(directory, parents[depth].as_str(), policy);
    let ghost root1 = directory.entries@;
    let mut taken = PlanEntry::Directory(PlanDirectory::new("", Vec::new()));
    std::mem::swap(&mut taken, &mut directory.entries[index]);
    match taken {
        PlanEntry::Directory(mut child) => {
            let ghost inner = child.entries@;
            insert_loose_at(&mut child, parents, depth + 1, proposed, artifact, policy);
            directory.entries.set(index, PlanEntry::Directory(child));
            proof {
                let after = directory.entries@;
                assert(texts(parents@)[depth as int] == parents@[depth as int]@);
                assert(dir_replaced(root1, index as int, inner, child.entries@, after));
                assert(loose_placed(policy.conflict, texts(parents@), depth as int, proposed@, artifact, before, after));
            }
        },
        other => {
            proof {
                assert(false);
            }
            directory.entries.set(index, other);
        },
    }
}

fn insert_bytes_path<N: NamingPolicy, F: FormattingPolicy, C: ConflictPolicy>(
    root: &mut PlanDirectory,
    bytes: &BytesContent,
    policy: &PolicySet<N, F, C>,
)
    ensures
        final(root).name == old(root).name,
        bytes_placed(*bytes, policy.conflict, old(root).entries@, final(root).entries@),
{
    let ghost before = root.entries@;
    let (parents, _) = split_parent_dirs(bytes.id.0.as_str());
    let file_name = bytes.source.file_name();
    let proposed = concat2(file_name.as_str(), ".bin");
    let artifact = ArtifactRequest::new(
        ArtifactId::new(concat2("bytes:", bytes.id.0.as_str())),
        PlannedArtifactKind::SourceBacked(SourceArtifact::single(bytes.source.clone(), bytes.size)),
        requirements(ContentType::Bytes, Some(Format::Bin)),
    );
    let ghost placed = artifact;
    insert_loose_at(root, parents.as_slice(), 0, proposed.as_str(), artifact, policy);
    assert(bytes_placed(*bytes, policy.conflict, before, root.entries@));
}

fn insert_text_path<N: NamingPolicy, F: FormattingPolicy, C: ConflictPolicy>(
    root: &mut PlanDirectory,
    text: &TextContent,
    policy: &PolicySet<N, F, C>,
)
    ensures
        final(root).name == old(root).name,
        text_placed(*text, policy.conflict, old(root).entries@, final(root).entries@),
{
    let ghost before = root.entries@;
    let (parents, _) = split_parent_dirs(text.id.0.as_str());
    let proposed = text_file_name(text);
    let artifact = ArtifactRequest::new(
        ArtifactId::new(concat2("text:", text.id.0.as_str())),
        PlannedArtifactKind::SourceBacked(SourceArtifact::single(text.source.clone(), text.size)),
        requirements(ContentType::Text, Some(Format::Text)),
    );
    let ghost placed = artifact;
    insert_loose_at(root, parents.as_slice(), 0, proposed.as_str(), artifact, policy);
    assert(text_placed(*text, policy.conflict, before, root.entries@));
}

impl GroupedPresenter {
    /// The library view's root: first every game under its platform, then the loose
    /// bytes and text files, each group in content order.
    fn build_root_entries<N: NamingPolicy, F: FormattingPolicy, C: ConflictPolicy>(
        &self,
        content: &[NormalizedContent],
        policy: &PolicySet<N, F, C>,
    ) -> (r: Vec<PlanEntry>)
        ensures
            exists|states: Seq<Seq<PlanEntry>>| grouped_states(content@, policy.naming, policy.formatting, policy.conflict, states)
                && #[trigger] states.last() == r@,
    {
        let mut root = PlanDirectory::new("", Vec::new());
        let ghost n = content@.len() as int;
        let ghost mut states: Seq<Seq<PlanEntry>> = seq![root.entries@];
        let mut i: usize = 0;
        while i < content.len()
            invariant
                i <= content@.len(),
                n == content@.len(),
                states.len() == i + 1,
                states[0] == Seq::<PlanEntry>::empty(),
                states.last() == root.entries@,
                forall|k: int| 0 <= k < i ==> match #[trigger] content@[k] {
                    NormalizedContent::Game(g) => game_placed(g, policy.naming, policy.formatting, policy.conflict, states[k], states[k + 1]),
                    _ => states[k + 1] == states[k],
                },
            decreases content@.len() - i,
        {
            let ghost previous = states;
            match &content[i] {
                NormalizedContent::Game(game) => insert_game_node(&mut root, game, policy),
                _ => {},
            }
            proof {
                states = states.push(root.entries@);
                assert forall|k: int| 0 <= k < i + 1 implies match #[trigger] content@[k] {
                    NormalizedContent::Game(g) => game_placed(g, policy.naming, policy.formatting, policy.conflict, states[k], states[k + 1]),
                    _ => states[k + 1] == states[k],
                } by {
                    if k < i {
                        assert(states[k] == previous[k]);
                        assert(states[k + 1] == previous[k + 1]);
                    }
                }
            }
            i = i + 1;
        }
        let mut j: usize = 0;
        while j < content.len()
            invariant
                j <= content@.len(),
                n == content@.len(),
                states.len() == n + j + 1,
                states[0] == Seq::<PlanEntry>::empty(),
                states.last() == root.entries@,
                forall|k: int| 0 <= k < n ==> match #[trigger] content@[k] {
                    NormalizedContent::Game(g) => game_placed(g, policy.naming, policy.formatting, policy.conflict, states[k], states[k + 1]),
                    _ => states[k + 1] == states[k],
                },
                forall|k: int| 0 <= k < j ==> match #[trigger] content@[k] {
                    NormalizedContent::Game(_) => states[n + k + 1] == states[n + k],
                    NormalizedContent::Bytes(b) => bytes_placed(b, policy.conflict, states[n + k], states[n + k + 1]),
                    NormalizedContent::Text(t) => text_placed(t, policy.conflict, states[n + k], states[n + k + 1]),
                },
            decreases content@.len() - j,
        {
            let ghost previous = states;
            match &content[j] {
                NormalizedContent::Game(_) => {},
                NormalizedContent::Bytes(bytes) => insert_bytes_path(&mut root, bytes, policy),
                NormalizedContent::Text(text) => insert_text_path(&mut root, text, policy),
            }
            proof {
                states = states.push(root.entries@);
                assert forall|k: int| 0 <= k < n implies match #[trigger] content@[k] {
                    NormalizedContent::Game(g) => game_placed(g, policy.naming, policy.formatting, policy.conflict, states[k], states[k + 1]),
                    _ => states[k + 1] == states[k],
                } by {
                    assert(states[k] == previous[k]);
                    assert(states[k + 1] == previous[k + 1]);
                }
                assert forall|k: int| 0 <= k < j + 1 implies match #[trigger] content@[k] {
                    NormalizedContent::Game(_) => states[n + k + 1] == states[n + k],
                    NormalizedContent::Bytes(b) => bytes_placed(b, policy.conflict, states[n + k], states[n + k + 1]),
                    NormalizedContent::Text(t) => text_placed(t, policy.conflict, states[n + k], states[n + k + 1]),
                } by {
                    if k < j {
                        assert(states[n + k] == previous[n + k]);
                        assert(states[n + k + 1] == previous[n + k + 1]);
                    }
                }
            }
            j = j + 1;
        }
        proof {
            assert(grouped_states(content@, policy.naming, policy.formatting, policy.conflict, states));
        }
        root.entries
    }
}

impl OutputPresenter for GroupedPresenter {
    /// The library layout: games under platform directories, then the loose files.
    fn present<N: NamingPolicy, F: FormattingPolicy, C: ConflictPolicy>(
        &self,
        content: &[NormalizedContent],
        policy: &PolicySet<N, F, C>,
    ) -> (r: PresentationPlan)
        ensures
            exists|states: Seq<Seq<PlanEntry>>| grouped_states(content@, policy.naming, policy.formatting, policy.conflict, states)
                && #[trigger] states.last() == r.entries@,
    {
        PresentationPlan::new(self.build_root_entries(content, policy))
    }
}

} // verus!
