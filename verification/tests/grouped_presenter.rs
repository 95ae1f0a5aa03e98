use retromount::model::content::{
    BytesContent, ContentId, DiscPart, GameContent, GamePart, NormalizedContent, Platform,
    RomPart, TextContent,
};
use retromount::model::source::SourceRef;
use retromount::model::vfs::{FileBacking, VfsDirectory, VfsNode};
use retromount::output::basic_encoder::BasicEncoder;
use retromount::output::grouped_presenter::GroupedPresenter;
use retromount::output::materialize::materialize_plan;
use retromount::output::plan::PlanEntry;
use retromount::output::present::OutputPresenter;
use retromount::policy::{ConflictPolicy, FormattingPolicy, NamingPolicy, PolicySet};

struct AlternateNamingPolicy;

impl NamingPolicy for AlternateNamingPolicy {
    fn game_name(&self, game: &GameContent) -> String {
        format!("{} [ALT]", game.title)
    }

    fn part_name(&self, game: &GameContent, part: &GamePart) -> String {
        match part {
            GamePart::Rom(rom) => format!("ALT-{}", rom.source.file_name()),
            GamePart::Disc(disc) => format!("{} - CD{}.cue", game.title, disc.disc_number),
        }
    }

    fn playlist_name(&self, game: &GameContent) -> String {
        format!("{} - Playlist.m3u", game.title)
    }

    fn platform_name(&self, platform: &Platform) -> String {
        match platform {
            Platform::Ps1 => "PlayStation".to_string(),
            _ => platform.to_string(),
        }
    }
}

struct DefaultLikeNamingPolicy;

impl NamingPolicy for DefaultLikeNamingPolicy {
    fn game_name(&self, game: &GameContent) -> String {
        game.title.clone()
    }

    fn part_name(&self, game: &GameContent, part: &GamePart) -> String {
        match part {
            GamePart::Rom(rom) => rom.source.file_name(),
            GamePart::Disc(disc) => format!("{} (Disc {}).cue", game.title, disc.disc_number),
        }
    }

    fn playlist_name(&self, game: &GameContent) -> String {
        format!("{}.m3u", game.title)
    }

    fn platform_name(&self, platform: &Platform) -> String {
        platform.to_string()
    }
}

struct PassthroughFormattingPolicy;

impl FormattingPolicy for PassthroughFormattingPolicy {
    fn format_name(&self, raw: &str) -> String {
        raw.to_string()
    }
}

struct PreserveConflictPolicy;

impl ConflictPolicy for PreserveConflictPolicy {
    fn resolve_name_conflict(&self, proposed: &str, _existing: &[String]) -> String {
        proposed.to_string()
    }
}

struct SuffixConflictPolicy;

impl ConflictPolicy for SuffixConflictPolicy {
    fn resolve_name_conflict(&self, proposed: &str, existing: &[String]) -> String {
        if !existing.iter().any(|name| name == proposed) {
            return proposed.to_string();
        }

        let mut i = 1;
        loop {
            let candidate = format!("{proposed} ({i})");
            if !existing.iter().any(|name| name == &candidate) {
                return candidate;
            }
            i += 1;
        }
    }
}

fn render_root<N: NamingPolicy, F: FormattingPolicy, C: ConflictPolicy>(
    presenter: &GroupedPresenter,
    content: &[NormalizedContent],
    policy: &PolicySet<N, F, C>,
) -> VfsDirectory {
    let plan = presenter.present(content, policy);
    materialize_plan(&plan).unwrap()
}

fn default_policy() -> PolicySet<
    retromount::policy::default::DefaultNamingPolicy,
    retromount::policy::default::DefaultFormattingPolicy,
    retromount::policy::default::DefaultConflictPolicy,
> {
    PolicySet::default()
}

fn ff7_two_discs() -> NormalizedContent {
    NormalizedContent::Game(GameContent {
        id: ContentId::new("ff7"),
        source: SourceRef::new("cue:/roms/ff7-disc1.cue"),
        title: "Final Fantasy VII".to_string(),
        platform: Platform::Ps1,
        parts: vec![
            GamePart::Disc(DiscPart {
                source: SourceRef::new("cue:/roms/ff7-disc2.cue"),
                disc_number: 2,
                consumed_sources: vec![SourceRef::new("cue:/roms/ff7-disc2.bin")],
                cd_disc: None,
                logical_disc: None,
            }),
            GamePart::Disc(DiscPart {
                source: SourceRef::new("cue:/roms/ff7-disc1.cue"),
                disc_number: 1,
                consumed_sources: vec![SourceRef::new("cue:/roms/ff7-disc1.bin")],
                cd_disc: None,
                logical_disc: None,
            }),
        ],
        consumed_sources: vec![
            SourceRef::new("cue:/roms/ff7-disc2.bin"),
            SourceRef::new("cue:/roms/ff7-disc1.bin"),
        ],
    })
}

#[test]
fn grouped_presenter_plan_places_game_under_platform_directory() {
    let presenter = GroupedPresenter;
    let policy = default_policy();

    let content = vec![NormalizedContent::Game(GameContent {
        id: ContentId::new("smw"),
        source: SourceRef::new("file:/roms/Super Mario World.sfc"),
        title: "Super Mario World".to_string(),
        platform: Platform::Snes,
        parts: vec![GamePart::Rom(RomPart {
            source: SourceRef::new("file:/roms/Super Mario World.sfc"),
            size: 4096,
        })],
        consumed_sources: vec![],
    })];

    let plan = presenter.present(&content, &policy);

    assert_eq!(plan.entries.len(), 1);

    let platform_dir = match &plan.entries[0] {
        PlanEntry::Directory(dir) => dir,
        other => panic!("expected directory, got {other:?}"),
    };

    assert_eq!(platform_dir.name, "snes");

    let game_dir = match &platform_dir.entries[0] {
        PlanEntry::Directory(dir) => dir,
        other => panic!("expected directory, got {other:?}"),
    };

    assert_eq!(game_dir.name, "Super Mario World");
    assert_eq!(game_dir.entries.len(), 1);
}

#[test]
fn presents_mixed_content_in_library_view() {
    let presenter = GroupedPresenter;
    let policy = default_policy();

    let content = vec![
        NormalizedContent::Bytes(BytesContent {
            id: ContentId::new("bios"),
            source: SourceRef::new("bios"),
            size: 512,
        }),
        NormalizedContent::Game(GameContent {
            id: ContentId::new("sonic"),
            source: SourceRef::new("zip:/roms/megadrive.zip#sonic.bin"),
            title: "Sonic the Hedgehog".to_string(),
            platform: Platform::Megadrive,
            parts: vec![GamePart::Rom(RomPart {
                source: SourceRef::new("zip:/roms/megadrive.zip#sonic.bin"),
                size: 1024,
            })],
            consumed_sources: vec![],
        }),
        NormalizedContent::Game(GameContent {
            id: ContentId::new("ff7"),
            source: SourceRef::new("cue:/roms/ff7.cue"),
            title: "Final Fantasy VII".to_string(),
            platform: Platform::Ps1,
            parts: vec![GamePart::Disc(DiscPart {
                source: SourceRef::new("cue:/roms/ff7.cue"),
                disc_number: 1,
                consumed_sources: vec![SourceRef::new("cue:/roms/ff7.bin")],
                cd_disc: None,
                logical_disc: None,
            })],
            consumed_sources: vec![SourceRef::new("cue:/roms/ff7.bin")],
        }),
        NormalizedContent::Text(TextContent {
            id: ContentId::new("manifest"),
            source: SourceRef::new("file:/roms/manifest"),
            size: 64,
        }),
    ];

    let root = render_root(&presenter, &content, &policy);

    let names: Vec<&str> = root.children().iter().map(|node| node.name()).collect();
    assert_eq!(names, vec!["megadrive", "ps1", "bios.bin", "manifest.txt"]);
}

#[test]
fn presents_multi_disc_game_as_directory_with_playlist_in_library_view() {
    let presenter = GroupedPresenter;
    let policy = default_policy();

    let content = vec![ff7_two_discs()];

    let root = render_root(&presenter, &content, &policy);

    assert_eq!(root.children()[0].name(), "ps1");

    let ps1 = match &root.children()[0] {
        VfsNode::Directory(dir) => dir,
        other => panic!("expected directory, got {other:?}"),
    };

    let game_dir = match &ps1.children()[0] {
        VfsNode::Directory(dir) => dir,
        other => panic!("expected directory, got {other:?}"),
    };

    let child_names: Vec<&str> = game_dir.children().iter().map(|node| node.name()).collect();
    assert_eq!(
        child_names,
        vec![
            "Final Fantasy VII (Disc 1).cue",
            "Final Fantasy VII (Disc 2).cue",
            "Final Fantasy VII.m3u",
        ]
    );

    let playlist = match &game_dir.children()[2] {
        VfsNode::File(file) => file,
        other => panic!("expected file, got {other:?}"),
    };

    match &playlist.backing {
        FileBacking::Inline(contents) => {
            assert_eq!(
                contents,
                b"Final Fantasy VII (Disc 1).cue\nFinal Fantasy VII (Disc 2).cue\n"
            );
        }
        other => panic!("expected inline backing, got {other:?}"),
    }
}

#[test]
fn naming_policy_can_change_grouped_output_names_without_changing_structure() {
    let presenter = GroupedPresenter;
    let default_policy = default_policy();
    let alt_policy = PolicySet::new(
        AlternateNamingPolicy,
        PassthroughFormattingPolicy,
        PreserveConflictPolicy,
    );

    let content = vec![ff7_two_discs()];

    let default_root = render_root(&presenter, &content, &default_policy);
    let alt_root = render_root(&presenter, &content, &alt_policy);

    let default_platform = default_root.find_directory("ps1").unwrap();
    let default_game = default_platform.find_directory("Final Fantasy VII").unwrap();
    let default_names: Vec<&str> = default_game.children().iter().map(|node| node.name()).collect();
    assert_eq!(
        default_names,
        vec![
            "Final Fantasy VII (Disc 1).cue",
            "Final Fantasy VII (Disc 2).cue",
            "Final Fantasy VII.m3u",
        ]
    );

    let alt_platform = alt_root.find_directory("PlayStation").unwrap();
    let alt_game = alt_platform.find_directory("Final Fantasy VII [ALT]").unwrap();
    let alt_names: Vec<&str> = alt_game.children().iter().map(|node| node.name()).collect();
    assert_eq!(
        alt_names,
        vec![
            "Final Fantasy VII - CD1.cue",
            "Final Fantasy VII - CD2.cue",
            "Final Fantasy VII - Playlist.m3u",
        ]
    );

    assert_eq!(default_root.children().len(), 1);
    assert_eq!(alt_root.children().len(), 1);
}

#[test]
fn conflict_policy_can_disambiguate_game_directory_names_under_same_platform() {
    let presenter = GroupedPresenter;
    let policy = PolicySet::new(
        DefaultLikeNamingPolicy,
        PassthroughFormattingPolicy,
        SuffixConflictPolicy,
    );

    let content = vec![
        NormalizedContent::Game(GameContent {
            id: ContentId::new("game-1"),
            source: SourceRef::new("file:/roms/game-1.bin"),
            title: "Duplicate Game".to_string(),
            platform: Platform::Ps1,
            parts: vec![GamePart::Rom(RomPart {
                source: SourceRef::new("file:/roms/game-1.bin"),
                size: 100,
            })],
            consumed_sources: vec![],
        }),
        NormalizedContent::Game(GameContent {
            id: ContentId::new("game-2"),
            source: SourceRef::new("file:/roms/game-2.bin"),
            title: "Duplicate Game".to_string(),
            platform: Platform::Ps1,
            parts: vec![GamePart::Rom(RomPart {
                source: SourceRef::new("file:/roms/game-2.bin"),
                size: 200,
            })],
            consumed_sources: vec![],
        }),
    ];

    let root = render_root(&presenter, &content, &policy);
    let ps1 = root.find_directory("ps1").unwrap();

    let names: Vec<&str> = ps1.children().iter().map(|node| node.name()).collect();
    assert_eq!(names, vec!["Duplicate Game", "Duplicate Game (1)"]);
}

#[test]
fn grouped_presenter_made_with_an_encoder_lays_out_the_same_plan() {
    let with_encoder = GroupedPresenter::new(Box::new(BasicEncoder::new()));
    let content = vec![ff7_two_discs()];
    let policy = default_policy();
    assert_eq!(
        with_encoder.present(&content, &policy),
        GroupedPresenter.present(&content, &policy)
    );
}
