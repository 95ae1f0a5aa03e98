use retromount::model::content::{
    BytesContent, ContentId, DiscPart, GameContent, GamePart, NormalizedContent, Platform,
    TextContent,
};
use retromount::model::source::SourceRef;
use retromount::output::capabilities::{ContentType, Format};
use retromount::output::plan::PlanEntry;
use retromount::output::presentation_compile::compile_presentation_spec;
use retromount::output::presentation_spec::{
    ArtifactSpec, FileRuleSpec, LayoutSpec, NamingSpec, PresentationSpec, SelectSpec,
};
use retromount::policy::default::{DefaultConflictPolicy, DefaultFormattingPolicy, DefaultNamingPolicy};
use retromount::policy::PolicySet;

fn test_policy() -> PolicySet<DefaultNamingPolicy, DefaultFormattingPolicy, DefaultConflictPolicy> {
    PolicySet::new(DefaultNamingPolicy, DefaultFormattingPolicy, DefaultConflictPolicy)
}

fn single_disc_game(id: &str, source: &str, title: &str, platform: Platform) -> NormalizedContent {
    NormalizedContent::Game(GameContent {
        id: ContentId::new(id),
        source: SourceRef::new(source),
        title: title.to_string(),
        platform,
        parts: vec![GamePart::Disc(DiscPart {
            source: SourceRef::new(source),
            disc_number: 1,
            consumed_sources: vec![],
            cd_disc: None,
            logical_disc: None,
        })],
        consumed_sources: vec![],
    })
}

#[test]
fn compiles_single_disc_game_to_flat_file() {
    let spec = PresentationSpec::new(
        LayoutSpec::Flat,
        vec![FileRuleSpec::new(
            SelectSpec::SingleDiscGames,
            NamingSpec::PartName,
            ArtifactSpec::new(ContentType::Disc).with_format(Format::Bin),
        )],
    );

    let content = vec![single_disc_game(
        "ps2:shadow-of-the-colossus",
        "file:/roms/Shadow of the Colossus.chd",
        "Shadow of the Colossus",
        Platform::Unknown,
    )];

    let plan = compile_presentation_spec(&spec, &content, &test_policy());

    assert_eq!(plan.entries.len(), 1);

    let PlanEntry::File(file) = &plan.entries[0] else {
        panic!("expected file entry");
    };

    assert_eq!(file.name, "Shadow of the Colossus (Disc 1).cue");
    assert_eq!(file.artifact.requirements.content_type, ContentType::Disc);
    assert_eq!(file.artifact.requirements.format, Some(Format::Bin));
}

#[test]
fn compiles_rule_files_into_a_destination_directory() {
    let spec = PresentationSpec::new(
        LayoutSpec::Flat,
        vec![FileRuleSpec::new(
            SelectSpec::SingleDiscGames,
            NamingSpec::GameTitle,
            ArtifactSpec::new(ContentType::Disc).with_format(Format::Iso),
        )
        .in_directory(&["CD"])],
    );
    let content = vec![single_disc_game("ps2:game", "file:/roms/Game.iso", "Game", Platform::Ps2)];

    let plan = compile_presentation_spec(&spec, &content, &test_policy());

    let [PlanEntry::Directory(directory)] = plan.entries.as_slice() else {
        panic!("expected destination directory");
    };
    assert_eq!(directory.name, "CD");
    let [PlanEntry::File(file)] = directory.entries.as_slice() else {
        panic!("expected file in destination directory");
    };
    assert_eq!(file.name, "Game.iso");
}

#[test]
fn compiles_bytes_content_using_source_name() {
    let spec = PresentationSpec::new(
        LayoutSpec::Flat,
        vec![FileRuleSpec::new(
            SelectSpec::Bytes,
            NamingSpec::SourceName,
            ArtifactSpec::new(ContentType::Bytes).with_format(Format::Bin),
        )],
    );

    let content = vec![NormalizedContent::Bytes(BytesContent {
        id: ContentId::new("bytes:readme"),
        source: SourceRef::new("file:/roms/manual"),
        size: 123,
    })];

    let plan = compile_presentation_spec(&spec, &content, &test_policy());

    assert_eq!(plan.entries.len(), 1);

    let PlanEntry::File(file) = &plan.entries[0] else {
        panic!("expected file entry");
    };

    assert_eq!(file.name, "manual.bin");
    assert_eq!(file.artifact.requirements.format, Some(Format::Bin));
}

#[test]
fn compiles_text_content_using_source_name() {
    let spec = PresentationSpec::new(
        LayoutSpec::Flat,
        vec![FileRuleSpec::new(
            SelectSpec::Text,
            NamingSpec::SourceName,
            ArtifactSpec::new(ContentType::Text).with_format(Format::Text),
        )],
    );

    let content = vec![NormalizedContent::Text(TextContent {
        id: ContentId::new("text:notes"),
        source: SourceRef::new("file:/roms/readme"),
        size: 42,
    })];

    let plan = compile_presentation_spec(&spec, &content, &test_policy());

    assert_eq!(plan.entries.len(), 1);

    let PlanEntry::File(file) = &plan.entries[0] else {
        panic!("expected file entry");
    };

    assert_eq!(file.name, "readme.txt");
    assert_eq!(file.artifact.requirements.format, Some(Format::Text));
}

#[test]
fn rules_select_only_matching_content() {
    let spec = PresentationSpec::new(
        LayoutSpec::Flat,
        vec![FileRuleSpec::new(
            SelectSpec::Text,
            NamingSpec::Literal("notes".to_string()),
            ArtifactSpec::new(ContentType::Text).with_format(Format::Text),
        )],
    );
    let content = vec![
        single_disc_game("ps2:game", "file:/roms/Game.iso", "Game", Platform::Ps2),
        NormalizedContent::Text(TextContent {
            id: ContentId::new("text:notes"),
            source: SourceRef::new("file:/roms/readme"),
            size: 42,
        }),
    ];

    let plan = compile_presentation_spec(&spec, &content, &test_policy());

    let [PlanEntry::File(file)] = plan.entries.as_slice() else {
        panic!("expected one file entry");
    };
    assert_eq!(file.name, "notes.txt");
    assert_eq!(file.artifact.id.0, "text:text:notes");
}

#[test]
fn literal_root_layout_wraps_entries_in_one_directory() {
    let spec = PresentationSpec::new(
        LayoutSpec::LiteralRoot("DVD".to_string()),
        vec![FileRuleSpec::new(
            SelectSpec::SingleDiscGames,
            NamingSpec::GameTitle,
            ArtifactSpec::new(ContentType::Disc).with_format(Format::Iso),
        )],
    );
    let content = vec![single_disc_game("ps2:game", "file:/roms/Game.iso", "Game", Platform::Ps2)];

    let plan = compile_presentation_spec(&spec, &content, &test_policy());

    let [PlanEntry::Directory(directory)] = plan.entries.as_slice() else {
        panic!("expected root directory");
    };
    assert_eq!(directory.name, "DVD");
    let [PlanEntry::File(file)] = directory.entries.as_slice() else {
        panic!("expected file in root directory");
    };
    assert_eq!(file.name, "Game.iso");
}

#[test]
fn literal_root_holds_what_the_flat_layout_gives() {
    let rules = || {
        vec![FileRuleSpec::new(
            SelectSpec::SingleDiscGames,
            NamingSpec::GameTitle,
            ArtifactSpec::new(ContentType::Disc).with_format(Format::Iso),
        )
        .in_directory(&["CD"])]
    };
    let content = vec![
        single_disc_game("ps2:game", "file:/roms/Game.iso", "Game", Platform::Ps2),
        single_disc_game("ps2:other", "file:/roms/Other.iso", "Other", Platform::Ps2),
    ];

    let flat = compile_presentation_spec(
        &PresentationSpec::new(LayoutSpec::Flat, rules()),
        &content,
        &test_policy(),
    );
    let literal = compile_presentation_spec(
        &PresentationSpec::new(LayoutSpec::LiteralRoot("DVD".to_string()), rules()),
        &content,
        &test_policy(),
    );

    let [PlanEntry::Directory(directory)] = literal.entries.as_slice() else {
        panic!("expected root directory");
    };
    assert_eq!(directory.name, "DVD");
    assert_eq!(directory.entries, flat.entries);
}

#[test]
fn rules_with_the_same_directory_path_share_its_directories() {
    let spec = PresentationSpec::new(
        LayoutSpec::Flat,
        vec![
            FileRuleSpec::new(
                SelectSpec::SingleDiscGames,
                NamingSpec::GameTitle,
                ArtifactSpec::new(ContentType::Disc).with_format(Format::Iso),
            )
            .in_directory(&["a", "b"]),
            FileRuleSpec::new(
                SelectSpec::SingleDiscGames,
                NamingSpec::GameTitle,
                ArtifactSpec::new(ContentType::Disc).with_format(Format::Bin),
            )
            .in_directory(&["a", "b"]),
        ],
    );
    let content = vec![single_disc_game("ps2:game", "file:/roms/Game.iso", "Game", Platform::Ps2)];

    let plan = compile_presentation_spec(&spec, &content, &test_policy());

    let [PlanEntry::Directory(a)] = plan.entries.as_slice() else {
        panic!("expected one directory a");
    };
    assert_eq!(a.name, "a");
    let [PlanEntry::Directory(b)] = a.entries.as_slice() else {
        panic!("expected one directory b");
    };
    assert_eq!(b.name, "b");
    let names: Vec<&str> = b
        .entries
        .iter()
        .map(|entry| match entry {
            PlanEntry::File(file) => file.name.as_str(),
            _ => panic!("expected files"),
        })
        .collect();
    assert_eq!(names, vec!["Game.iso", "Game.bin"]);
}
