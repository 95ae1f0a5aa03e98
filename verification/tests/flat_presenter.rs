use retromount::model::content::{
    BytesContent, ContentId, DiscPart, GameContent, GamePart, NormalizedContent, Platform,
    RomPart, TextContent,
};
use retromount::model::source::SourceRef;
use retromount::model::vfs::VfsDirectory;
use retromount::output::flat_presenter::FlatPresenter;
use retromount::output::materialize::materialize_plan;
use retromount::output::plan::{GeneratedArtifact, PlanEntry, PlannedArtifactKind, PresentationPlan};
use retromount::output::present::OutputPresenter;
use retromount::policy::default::{DefaultConflictPolicy, DefaultFormattingPolicy, DefaultNamingPolicy};
use retromount::policy::{ConflictPolicy, FormattingPolicy, NamingPolicy, PolicySet};

struct DefaultLikeNamingPolicy;

impl NamingPolicy for DefaultLikeNamingPolicy {
    fn game_name(&self, game: &GameContent) -> String {
        game.title.clone()
    }

    fn part_name(&self, game: &GameContent, part: &GamePart) -> String {
        match part {
            GamePart::Rom(rom) => rom.source.file_name(),
            GamePart::Disc(disc) => format!("{} (Disc {}).cue", game.title, disc.disc_number),
        }
    }

    fn playlist_name(&self, game: &GameContent) -> String {
        format!("{}.m3u", game.title)
    }

    fn platform_name(&self, platform: &Platform) -> String {
        platform.to_string()
    }
}

struct PassthroughFormattingPolicy;

impl FormattingPolicy for PassthroughFormattingPolicy {
    fn format_name(&self, raw: &str) -> String {
        raw.to_string()
    }
}

struct SuffixConflictPolicy;

impl ConflictPolicy for SuffixConflictPolicy {
    fn resolve_name_conflict(&self, proposed: &str, existing: &[String]) -> String {
        if !existing.iter().any(|name| name == proposed) {
            return proposed.to_string();
        }

        let mut i = 1;
        loop {
            let candidate = format!("{proposed} ({i})");
            if !existing.iter().any(|name| name == &candidate) {
                return candidate;
            }
            i += 1;
        }
    }
}

type DefaultPolicies = PolicySet<DefaultNamingPolicy, DefaultFormattingPolicy, DefaultConflictPolicy>;

fn default_policy() -> DefaultPolicies {
    PolicySet::default()
}

fn suffix_conflict_policy(
) -> PolicySet<DefaultLikeNamingPolicy, PassthroughFormattingPolicy, SuffixConflictPolicy> {
    PolicySet::new(
        DefaultLikeNamingPolicy,
        PassthroughFormattingPolicy,
        SuffixConflictPolicy,
    )
}

fn render_root(
    presenter: &FlatPresenter,
    content: &[NormalizedContent],
    policy: &DefaultPolicies,
) -> VfsDirectory {
    let plan = presenter.present(content, policy);
    materialize_plan(&plan).unwrap()
}

fn plan_file_names(plan: &PresentationPlan) -> Vec<&str> {
    plan.entries
        .iter()
        .map(|entry| match entry {
            PlanEntry::File(file) => file.name.as_str(),
            PlanEntry::Directory(dir) => dir.name.as_str(),
            PlanEntry::ArtifactSet(set) => set.directory_name.as_str(),
        })
        .collect()
}

fn disc(source: &str, number: u32, bin: &str) -> GamePart {
    GamePart::Disc(DiscPart {
        source: SourceRef::new(source),
        disc_number: number,
        consumed_sources: vec![SourceRef::new(bin)],
        cd_disc: None,
        logical_disc: None,
    })
}

fn two_disc_game(id: &str, prefix: &str) -> NormalizedContent {
    NormalizedContent::Game(GameContent {
        id: ContentId::new(id),
        source: SourceRef::new(format!("cue:/roms/{prefix}-disc1.cue")),
        title: "Final Fantasy VII".to_string(),
        platform: Platform::Ps1,
        parts: vec![
            disc(
                &format!("cue:/roms/{prefix}-disc2.cue"),
                2,
                &format!("cue:/roms/{prefix}-disc2.bin"),
            ),
            disc(
                &format!("cue:/roms/{prefix}-disc1.cue"),
                1,
                &format!("cue:/roms/{prefix}-disc1.bin"),
            ),
        ],
        consumed_sources: vec![
            SourceRef::new(format!("cue:/roms/{prefix}-disc2.bin")),
            SourceRef::new(format!("cue:/roms/{prefix}-disc1.bin")),
        ],
    })
}

#[test]
fn presents_mixed_content_at_root() {
    let presenter = FlatPresenter;
    let policy = default_policy();

    let content = vec![
        NormalizedContent::Bytes(BytesContent {
            id: ContentId::new("bios"),
            source: SourceRef::new("bios"),
            size: 512,
        }),
        NormalizedContent::Game(GameContent {
            id: ContentId::new("sonic"),
            source: SourceRef::new("zip:/roms/megadrive.zip#sonic.bin"),
            title: "Sonic the Hedgehog".to_string(),
            platform: Platform::Megadrive,
            parts: vec![GamePart::Rom(RomPart {
                source: SourceRef::new("zip:/roms/megadrive.zip#sonic.bin"),
                size: 1024,
            })],
            consumed_sources: vec![],
        }),
        two_disc_game("ff7", "ff7"),
        NormalizedContent::Text(TextContent {
            id: ContentId::new("manifest"),
            source: SourceRef::new("file:/roms/manifest.txt"),
            size: 64,
        }),
    ];

    let plan = presenter.present(&content, &policy);

    assert_eq!(
        plan_file_names(&plan),
        vec![
            "bios.bin",
            "sonic.bin",
            "Final Fantasy VII (Disc 1).cue",
            "Final Fantasy VII (Disc 2).cue",
            "Final Fantasy VII.m3u",
            "manifest.txt",
        ]
    );
}

#[test]
fn conflict_policy_can_disambiguate_playlist_between_duplicate_multi_disc_games() {
    let presenter = FlatPresenter;
    let policy = suffix_conflict_policy();

    let content = vec![two_disc_game("ff7-a", "ff7-a"), two_disc_game("ff7-b", "ff7-b")];

    let plan = presenter.present(&content, &policy);

    assert_eq!(
        plan_file_names(&plan),
        vec![
            "Final Fantasy VII (Disc 1).cue",
            "Final Fantasy VII (Disc 2).cue",
            "Final Fantasy VII.m3u",
            "Final Fantasy VII (Disc 1).cue (1)",
            "Final Fantasy VII (Disc 2).cue (1)",
            "Final Fantasy VII.m3u (1)",
        ]
    );
}

#[test]
fn multi_disc_plan_emits_playlist_artifact_referencing_disc_artifacts() {
    let presenter = FlatPresenter;
    let policy = default_policy();

    let content = vec![two_disc_game("ff7", "ff7")];

    let plan = presenter.present(&content, &policy);

    assert_eq!(plan.entries.len(), 3);

    let playlist = match &plan.entries[2] {
        PlanEntry::File(file) => file,
        other => panic!("expected file, got {other:?}"),
    };

    match &playlist.artifact.kind {
        PlannedArtifactKind::Generated(GeneratedArtifact::Playlist(playlist)) => {
            assert_eq!(playlist.entries.len(), 2);
            assert_eq!(playlist.entries[0].artifact_id.0, "game:ff7:disc:1");
            assert_eq!(playlist.entries[1].artifact_id.0, "game:ff7:disc:2");
        }
        other => panic!("expected playlist artifact, got {other:?}"),
    }
}

#[test]
fn materialized_multi_disc_output_contains_playlist_contents() {
    let presenter = FlatPresenter;
    let policy = default_policy();

    let content = vec![two_disc_game("ff7", "ff7")];

    let root = render_root(&presenter, &content, &policy);

    let names: Vec<&str> = root.children().iter().map(|node| node.name()).collect();
    assert_eq!(
        names,
        vec![
            "Final Fantasy VII (Disc 1).cue",
            "Final Fantasy VII (Disc 2).cue",
            "Final Fantasy VII.m3u",
        ]
    );
}

#[test]
fn empty_content_presents_an_empty_plan() {
    let plan = FlatPresenter.present(&[], &default_policy());
    assert!(plan.entries.is_empty());
}
