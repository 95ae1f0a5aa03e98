use retromount::model::content::{
    BytesContent, ContentId, DiscPart, GameContent, GamePart, NormalizedContent, Platform, RomPart,
    TextContent,
};
use retromount::model::source::SourceRef;
use retromount::output::capabilities::{ContentType, Format};
use retromount::output::plan::{GeneratedArtifact, PlanEntry, PlannedArtifactKind, PresentationPlan};
use retromount::output::presentation_compile::compile_presentation_spec;
use retromount::output::presentation_spec::{
    ArtifactSpec, FileRuleSpec, LayoutSpec, NamingSpec, PresentationSpec, SelectSpec, SourceFormat,
};
use retromount::policy::default::{DefaultConflictPolicy, DefaultFormattingPolicy, DefaultNamingPolicy};
use retromount::policy::{ConflictPolicy, PolicySet};

struct SuffixConflictPolicy;

impl ConflictPolicy for SuffixConflictPolicy {
    fn resolve_name_conflict(&self, proposed: &str, existing: &[String]) -> String {
        if !existing.iter().any(|name| name == proposed) {
            return proposed.to_string();
        }

        let mut suffix = 1;
        loop {
            let candidate = format!("{proposed} ({suffix})");
            if !existing.iter().any(|name| name == &candidate) {
                return candidate;
            }
            suffix += 1;
        }
    }
}

fn test_policy() -> PolicySet<DefaultNamingPolicy, DefaultFormattingPolicy, DefaultConflictPolicy> {
    PolicySet::new(DefaultNamingPolicy, DefaultFormattingPolicy, DefaultConflictPolicy)
}

fn suffix_conflict_policy() -> PolicySet<DefaultNamingPolicy, DefaultFormattingPolicy, SuffixConflictPolicy> {
    PolicySet::new(DefaultNamingPolicy, DefaultFormattingPolicy, SuffixConflictPolicy)
}

fn disc(source: &str, disc_number: u32) -> GamePart {
    GamePart::Disc(DiscPart {
        source: SourceRef::new(source),
        disc_number,
        consumed_sources: vec![],
        cd_disc: None,
        logical_disc: None,
    })
}

fn rom_game(id: &str, source: &str, title: &str, platform: Platform, size: u64) -> NormalizedContent {
    NormalizedContent::Game(GameContent {
        id: ContentId::new(id),
        source: SourceRef::new(source),
        title: title.to_string(),
        platform,
        parts: vec![GamePart::Rom(RomPart { source: SourceRef::new(source), size })],
        consumed_sources: vec![],
    })
}

fn spec_for(layout: LayoutSpec, rules: Vec<FileRuleSpec>) -> PresentationSpec {
    PresentationSpec::new(layout, rules)
}

fn single_disc_rule() -> FileRuleSpec {
    FileRuleSpec::new(
        SelectSpec::SingleDiscGames,
        NamingSpec::PartName,
        ArtifactSpec::new(ContentType::Disc).with_format(Format::Bin),
    )
}

fn multi_disc_rules() -> Vec<FileRuleSpec> {
    vec![
        FileRuleSpec::new(
            SelectSpec::MultiDiscGames,
            NamingSpec::PartName,
            ArtifactSpec::new(ContentType::Disc).with_format(Format::Bin),
        ),
        FileRuleSpec::new(
            SelectSpec::MultiDiscGames,
            NamingSpec::PlaylistName,
            ArtifactSpec::new(ContentType::Playlist).with_format(Format::M3u),
        ),
    ]
}

fn bytes_rule() -> FileRuleSpec {
    FileRuleSpec::new(
        SelectSpec::Bytes,
        NamingSpec::SourceName,
        ArtifactSpec::new(ContentType::Bytes).with_format(Format::Bin),
    )
}

fn text_rule() -> FileRuleSpec {
    FileRuleSpec::new(
        SelectSpec::Text,
        NamingSpec::SourceName,
        ArtifactSpec::new(ContentType::Text).with_format(Format::Text),
    )
}

fn mixed_rules() -> Vec<FileRuleSpec> {
    vec![
        FileRuleSpec::new(
            SelectSpec::SingleRomGames,
            NamingSpec::PartName,
            ArtifactSpec::new(ContentType::Rom).with_format(Format::Bin),
        ),
        single_disc_rule(),
        bytes_rule(),
        text_rule(),
    ]
}

fn multi_disc_game(id: &str) -> NormalizedContent {
    NormalizedContent::Game(GameContent {
        id: ContentId::new(id),
        source: SourceRef::new(format!("file:/roms/{id}-disc1.cue")),
        title: "Final Fantasy VII".to_string(),
        platform: Platform::Ps1,
        parts: vec![
            disc(&format!("file:/roms/{id}-disc2.cue"), 2),
            disc(&format!("file:/roms/{id}-disc1.cue"), 1),
        ],
        consumed_sources: vec![],
    })
}

fn ico() -> NormalizedContent {
    NormalizedContent::Game(GameContent {
        id: ContentId::new("ps2:ico"),
        source: SourceRef::new("file:/roms/ico.chd"),
        title: "ICO".to_string(),
        platform: Platform::Unknown,
        parts: vec![disc("file:/roms/ico.chd", 1)],
        consumed_sources: vec![],
    })
}

fn assert_file_names(plan: &PresentationPlan, expected: &[&str]) {
    let actual: Vec<&str> = plan
        .entries
        .iter()
        .map(|entry| match entry {
            PlanEntry::File(file) => file.name.as_str(),
            _ => panic!("flat plan should contain only files"),
        })
        .collect();
    assert_eq!(actual, expected);
}

fn collect_paths(entries: &[PlanEntry], parent: &str, paths: &mut Vec<String>) {
    for entry in entries {
        match entry {
            PlanEntry::Directory(directory) => {
                let path = format!("{parent}{}/", directory.name);
                paths.push(path.clone());
                collect_paths(&directory.entries, &path, paths);
            }
            PlanEntry::File(file) => {
                paths.push(format!("{parent}{}", file.name));
            }
            PlanEntry::ArtifactSet(_) => panic!("compiled plans hold no artifact sets"),
        }
    }
}

fn assert_plan_paths(plan: &PresentationPlan, expected: &[&str]) {
    let mut actual = Vec::new();
    collect_paths(&plan.entries, "", &mut actual);
    let expected: Vec<String> = expected.iter().map(|path| path.to_string()).collect();
    assert_eq!(actual, expected);
}

#[test]
fn single_disc_game_has_expected_flat_output() {
    let content = vec![ico()];
    let spec = spec_for(LayoutSpec::Flat, vec![single_disc_rule()]);
    let compiled_plan = compile_presentation_spec(&spec, &content, &test_policy());

    assert_file_names(&compiled_plan, &["ICO (Disc 1).cue"]);
}

#[test]
fn bytes_content_has_expected_flat_output() {
    let content = vec![NormalizedContent::Bytes(BytesContent {
        id: ContentId::new("bytes:manual"),
        source: SourceRef::new("file:/roms/manual"),
        size: 123,
    })];
    let spec = spec_for(LayoutSpec::Flat, vec![bytes_rule()]);
    let compiled_plan = compile_presentation_spec(&spec, &content, &test_policy());

    assert_file_names(&compiled_plan, &["manual.bin"]);
}

#[test]
fn text_content_has_expected_flat_output() {
    let content = vec![NormalizedContent::Text(TextContent {
        id: ContentId::new("text:readme"),
        source: SourceRef::new("file:/roms/readme"),
        size: 42,
    })];
    let spec = spec_for(LayoutSpec::Flat, vec![text_rule()]);
    let compiled_plan = compile_presentation_spec(&spec, &content, &test_policy());

    assert_file_names(&compiled_plan, &["readme.txt"]);
}

#[test]
fn multi_disc_game_with_playlist_has_expected_flat_output() {
    let content = vec![multi_disc_game("ff7")];
    let compiled_plan = compile_presentation_spec(
        &spec_for(LayoutSpec::Flat, multi_disc_rules()),
        &content,
        &test_policy(),
    );

    assert_file_names(
        &compiled_plan,
        &[
            "Final Fantasy VII (Disc 1).cue",
            "Final Fantasy VII (Disc 2).cue",
            "Final Fantasy VII.m3u",
        ],
    );

    let PlanEntry::File(playlist) = &compiled_plan.entries[2] else {
        panic!("expected playlist file");
    };
    let PlannedArtifactKind::Generated(GeneratedArtifact::Playlist(playlist)) = &playlist.artifact.kind
    else {
        panic!("expected generated playlist artifact");
    };
    let references: Vec<&str> = playlist
        .entries
        .iter()
        .map(|entry| entry.artifact_id.0.as_str())
        .collect();
    assert_eq!(references, ["game:ff7:disc:1", "game:ff7:disc:2"]);
}

#[test]
fn duplicate_multi_disc_games_apply_flat_conflict_handling() {
    let content = vec![multi_disc_game("ff7-a"), multi_disc_game("ff7-b")];
    let compiled_plan = compile_presentation_spec(
        &spec_for(LayoutSpec::Flat, multi_disc_rules()),
        &content,
        &suffix_conflict_policy(),
    );

    assert_file_names(
        &compiled_plan,
        &[
            "Final Fantasy VII (Disc 1).cue",
            "Final Fantasy VII (Disc 2).cue",
            "Final Fantasy VII.m3u",
            "Final Fantasy VII (Disc 1).cue (1)",
            "Final Fantasy VII (Disc 2).cue (1)",
            "Final Fantasy VII.m3u (1)",
        ],
    );
}

#[test]
fn single_disc_game_has_expected_grouped_output() {
    let content = vec![ico()];
    let spec = spec_for(LayoutSpec::GroupedByPlatformAndGame, vec![single_disc_rule()]);
    let compiled_plan = compile_presentation_spec(&spec, &content, &test_policy());

    assert_plan_paths(
        &compiled_plan,
        &["unknown/", "unknown/ICO/", "unknown/ICO/ICO (Disc 1).cue"],
    );
}

#[test]
fn multi_disc_game_with_playlist_has_expected_grouped_output() {
    let content = vec![NormalizedContent::Game(GameContent {
        id: ContentId::new("ps1:final-fantasy-vii"),
        source: SourceRef::new("file:/roms/Final Fantasy VII (Disc 1).cue"),
        title: "Final Fantasy VII".to_string(),
        platform: Platform::Ps1,
        parts: vec![
            disc("file:/roms/Final Fantasy VII (Disc 2).cue", 2),
            disc("file:/roms/Final Fantasy VII (Disc 1).cue", 1),
        ],
        consumed_sources: vec![],
    })];
    let compiled_plan = compile_presentation_spec(
        &spec_for(LayoutSpec::GroupedByPlatformAndGame, multi_disc_rules()),
        &content,
        &test_policy(),
    );

    assert_plan_paths(
        &compiled_plan,
        &[
            "ps1/",
            "ps1/Final Fantasy VII/",
            "ps1/Final Fantasy VII/Final Fantasy VII (Disc 1).cue",
            "ps1/Final Fantasy VII/Final Fantasy VII (Disc 2).cue",
            "ps1/Final Fantasy VII/Final Fantasy VII.m3u",
        ],
    );
}

#[test]
fn mixed_content_with_preserved_paths_has_expected_grouped_output() {
    let content = vec![
        NormalizedContent::Bytes(BytesContent {
            id: ContentId::new(r"firmware\ps1\bios"),
            source: SourceRef::new("file:/roms/firmware/ps1/scph1001"),
            size: 512,
        }),
        rom_game(
            "megadrive:sonic",
            "file:/roms/megadrive/sonic.bin",
            "Sonic the Hedgehog",
            Platform::Megadrive,
            1024,
        ),
        rom_game(
            "megadrive:streets-of-rage",
            "file:/roms/megadrive/streets-of-rage.bin",
            "Streets of Rage",
            Platform::Megadrive,
            2048,
        ),
        NormalizedContent::Text(TextContent {
            id: ContentId::new("docs/guides/readme"),
            source: SourceRef::new("file:/roms/docs/guides/readme"),
            size: 64,
        }),
    ];
    let compiled_plan = compile_presentation_spec(
        &spec_for(LayoutSpec::GroupedByPlatformAndGame, mixed_rules()),
        &content,
        &test_policy(),
    );

    assert_plan_paths(
        &compiled_plan,
        &[
            "firmware/",
            "firmware/ps1/",
            "firmware/ps1/scph1001.bin",
            "megadrive/",
            "megadrive/Sonic the Hedgehog/",
            "megadrive/Sonic the Hedgehog/sonic.bin",
            "megadrive/Streets of Rage/",
            "megadrive/Streets of Rage/streets-of-rage.bin",
            "docs/",
            "docs/guides/",
            "docs/guides/readme.txt",
        ],
    );
}

#[test]
fn duplicate_game_directories_apply_grouped_conflict_handling() {
    let content = vec![
        rom_game("ps1:duplicate-one", "file:/roms/duplicate-one.bin", "Duplicate Game", Platform::Ps1, 100),
        rom_game("ps1:duplicate-two", "file:/roms/duplicate-two.bin", "Duplicate Game", Platform::Ps1, 200),
    ];
    let compiled_plan = compile_presentation_spec(
        &spec_for(LayoutSpec::GroupedByPlatformAndGame, mixed_rules()),
        &content,
        &suffix_conflict_policy(),
    );

    assert_plan_paths(
        &compiled_plan,
        &[
            "ps1/",
            "ps1/Duplicate Game/",
            "ps1/Duplicate Game/duplicate-one.bin",
            "ps1/Duplicate Game (1)/",
            "ps1/Duplicate Game (1)/duplicate-two.bin",
        ],
    );
}

#[test]
fn colliding_preserved_path_files_apply_grouped_conflict_handling() {
    let content = vec![
        NormalizedContent::Bytes(BytesContent {
            id: ContentId::new("firmware/primary"),
            source: SourceRef::new("file:/roms/primary/bios"),
            size: 512,
        }),
        NormalizedContent::Bytes(BytesContent {
            id: ContentId::new("firmware/backup"),
            source: SourceRef::new("file:/roms/backup/bios"),
            size: 512,
        }),
    ];
    let compiled_plan = compile_presentation_spec(
        &spec_for(LayoutSpec::GroupedByPlatformAndGame, mixed_rules()),
        &content,
        &suffix_conflict_policy(),
    );

    assert_plan_paths(
        &compiled_plan,
        &["firmware/", "firmware/bios.bin", "firmware/bios.bin (1)"],
    );
}

fn single_disc_game_from(id: &str, source: &str, title: &str) -> NormalizedContent {
    NormalizedContent::Game(GameContent {
        id: ContentId::new(id),
        source: SourceRef::new(source),
        title: title.to_string(),
        platform: Platform::Ps1,
        parts: vec![disc(source, 1)],
        consumed_sources: vec![],
    })
}

#[test]
fn source_format_rules_select_games_by_the_extension_of_every_part() {
    let content = vec![
        single_disc_game_from("ps1:a", "file:/roms/a.chd", "Alpha"),
        single_disc_game_from("ps1:b", "file:/roms/b.cue", "Beta"),
    ];
    let chd_only = spec_for(
        LayoutSpec::Flat,
        vec![single_disc_rule().with_source_formats(vec![SourceFormat::Chd])],
    );
    let plan = compile_presentation_spec(&chd_only, &content, &test_policy());
    assert_file_names(&plan, &["Alpha (Disc 1).cue"]);

    let not_chd = spec_for(
        LayoutSpec::Flat,
        vec![single_disc_rule().excluding_source_formats(vec![SourceFormat::Chd])],
    );
    let plan = compile_presentation_spec(&not_chd, &content, &test_policy());
    assert_file_names(&plan, &["Beta (Disc 1).cue"]);
}

#[test]
fn parts_of_unknown_format_fail_a_source_format_list() {
    let content = vec![single_disc_game_from("ps1:c", "file:/roms/c.img", "Gamma")];
    let spec = spec_for(
        LayoutSpec::Flat,
        vec![single_disc_rule().with_source_formats(vec![SourceFormat::Chd, SourceFormat::Iso])],
    );
    let plan = compile_presentation_spec(&spec, &content, &test_policy());
    assert!(plan.entries.is_empty());
}

#[test]
fn extensions_are_judged_on_the_last_path_component() {
    let content = vec![ico()];
    for (literal, expected) in [
        ("a.b/c", "a.b/c.bin"),
        ("a/.b", "a/.b.bin"),
        ("a/b.c", "a/b.c"),
        ("a.b/", "a.b/"),
        ("readme", "readme.bin"),
    ] {
        let spec = spec_for(
            LayoutSpec::Flat,
            vec![FileRuleSpec::new(
                SelectSpec::SingleDiscGames,
                NamingSpec::Literal(literal.to_string()),
                ArtifactSpec::new(ContentType::Disc).with_format(Format::Bin),
            )],
        );
        let plan = compile_presentation_spec(&spec, &content, &test_policy());
        assert_file_names(&plan, &[expected]);
    }
}
