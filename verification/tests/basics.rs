use retromount::model::source::SourceRef;
use retromount::output::basic_encoder::BasicEncoder;
use retromount::output::capabilities::{
    CapabilityFeature, CapabilityRequirements, ContentType, EncoderCapability, Format,
};
use retromount::output::encode::{
    ArtifactNames, MaterializationContext, MaterializedArtifact, OutputEncoder,
};
use retromount::output::plan::{
    ArtifactId, ArtifactReference, ArtifactRequest, GeneratedArtifact, PlannedArtifactKind,
    PlaylistArtifact, PresentationPlan, SourceArtifact, SourceArtifactInput,
};

#[test]
fn exposes_expected_capabilities() {
    let encoder = BasicEncoder::new();
    let capabilities = encoder.capabilities();

    let ids: Vec<&str> = capabilities
        .iter()
        .map(|c| c.capability_id.as_str())
        .collect();
    assert_eq!(
        ids,
        vec!["bytes.bin", "text.txt", "rom.bin", "disc.bin", "playlist.m3u"]
    );
}

#[test]
fn materializes_single_source_artifact() {
    let encoder = BasicEncoder::new();

    let artifact = ArtifactRequest::new(
        ArtifactId::new("rom"),
        PlannedArtifactKind::SourceBacked(SourceArtifact::single(
            SourceRef::new("file:/roms/game.bin"),
            4096,
        )),
        CapabilityRequirements::new(ContentType::Rom).with_format(Format::Bin),
    );

    let materialized = encoder
        .materialize(
            "game.bin",
            &artifact,
            "rom.bin",
            &MaterializationContext {
                artifact_names: Default::default(),
            },
        )
        .unwrap();

    assert_eq!(
        materialized,
        MaterializedArtifact::SourceBacked {
            source: SourceRef::new("file:/roms/game.bin"),
            size: 4096,
        }
    );
}

#[test]
fn materializes_playlist_inline() {
    let encoder = BasicEncoder::new();

    let artifact = ArtifactRequest::new(
        ArtifactId::new("playlist"),
        PlannedArtifactKind::Generated(GeneratedArtifact::Playlist(PlaylistArtifact::new(vec![
            ArtifactReference::new(ArtifactId::new("disc1")),
            ArtifactReference::new(ArtifactId::new("disc2")),
        ]))),
        CapabilityRequirements::new(ContentType::Playlist).with_format(Format::M3u),
    );

    let mut artifact_names = ArtifactNames::new();
    artifact_names.insert(ArtifactId::new("disc1"), "Game (Disc 1).cue".to_string());
    artifact_names.insert(ArtifactId::new("disc2"), "Game (Disc 2).cue".to_string());

    let materialized = encoder
        .materialize(
            "Game.m3u",
            &artifact,
            "playlist.m3u",
            &MaterializationContext { artifact_names },
        )
        .unwrap();

    assert_eq!(
        materialized,
        MaterializedArtifact::Inline(b"Game (Disc 1).cue\nGame (Disc 2).cue\n".to_vec())
    );
}

#[test]
fn basic_encoder_rejects_multi_source_source_backed_artifact() {
    let encoder = BasicEncoder::new();

    let artifact = ArtifactRequest::new(
        ArtifactId::new("merged"),
        PlannedArtifactKind::SourceBacked(SourceArtifact::multiple(vec![
            SourceArtifactInput {
                source: SourceRef::new("file:/roms/part1.bin"),
                size: 100,
            },
            SourceArtifactInput {
                source: SourceRef::new("file:/roms/part2.bin"),
                size: 200,
            },
        ])),
        CapabilityRequirements::new(ContentType::Rom).with_format(Format::Bin),
    );

    let err = encoder
        .materialize(
            "merged.bin",
            &artifact,
            "rom.bin",
            &MaterializationContext {
                artifact_names: Default::default(),
            },
        )
        .unwrap_err();

    assert_eq!(err.kind(), std::io::ErrorKind::Unsupported);
}

#[test]
fn basic_encoder_reports_unknown_playlist_entries() {
    let encoder = BasicEncoder::new();
    let artifact = ArtifactRequest::new(
        ArtifactId::new("playlist"),
        PlannedArtifactKind::Generated(GeneratedArtifact::Playlist(PlaylistArtifact::new(vec![
            ArtifactReference::new(ArtifactId::new("missing")),
        ]))),
        CapabilityRequirements::new(ContentType::Playlist).with_format(Format::M3u),
    );
    let err = encoder
        .materialize(
            "Game.m3u",
            &artifact,
            "playlist.m3u",
            &MaterializationContext {
                artifact_names: ArtifactNames::new(),
            },
        )
        .unwrap_err();
    assert_eq!(err.kind(), std::io::ErrorKind::InvalidData);
}

#[test]
fn capability_requirements_builder_sets_fields() {
    let requirements = CapabilityRequirements::new(ContentType::Disc)
        .with_format(Format::Chd)
        .require_feature(CapabilityFeature::Lossless)
        .prefer_feature(CapabilityFeature::RandomAccess)
        .forbid_feature(CapabilityFeature::SupportsPartial);

    assert_eq!(requirements.content_type, ContentType::Disc);
    assert_eq!(requirements.format, Some(Format::Chd));
    assert!(requirements
        .required_features
        .contains(&CapabilityFeature::Lossless));
    assert!(requirements
        .preferred_features
        .contains(&CapabilityFeature::RandomAccess));
    assert!(requirements
        .forbidden_features
        .contains(&CapabilityFeature::SupportsPartial));
}

#[test]
fn encoder_capability_builder_sets_fields() {
    let capability = EncoderCapability::new("builtin.chd", "disc.chd", ContentType::Disc)
        .supports_format(Format::Chd)
        .with_feature(CapabilityFeature::Lossless)
        .with_priority(100);

    assert!(capability.formats.contains(&Format::Chd));
    assert!(capability.features.contains(&CapabilityFeature::Lossless));
    assert_eq!(capability.priority, 100);
}

#[test]
fn feature_sets_stay_ordered_and_free_of_repeats() {
    let capability = EncoderCapability::new("p", "c", ContentType::Disc)
        .with_feature(CapabilityFeature::RandomAccess)
        .with_feature(CapabilityFeature::MultiSource)
        .with_feature(CapabilityFeature::RandomAccess);
    assert_eq!(
        capability.features.as_slice(),
        &[CapabilityFeature::MultiSource, CapabilityFeature::RandomAccess]
    );
}

#[test]
fn source_artifact_single_is_not_multi_source() {
    let artifact = SourceArtifact::single(SourceRef::new("file:/roms/game.bin"), 1024);
    assert!(!artifact.is_multi_source());
    assert_eq!(artifact.inputs.len(), 1);
}

#[test]
fn source_artifact_multiple_is_multi_source() {
    let artifact = SourceArtifact::multiple(vec![
        SourceArtifactInput {
            source: SourceRef::new("file:/roms/disc1.bin"),
            size: 1024,
        },
        SourceArtifactInput {
            source: SourceRef::new("file:/roms/disc2.bin"),
            size: 2048,
        },
    ]);

    assert!(artifact.is_multi_source());
    assert_eq!(artifact.inputs.len(), 2);
}

#[test]
fn presentation_plan_empty_constructor_returns_no_entries() {
    let plan = PresentationPlan::empty();
    assert!(plan.entries.is_empty());
}

#[test]
fn artifact_names_replace_an_earlier_binding() {
    let mut names = ArtifactNames::new();
    names.insert(ArtifactId::new("a"), "one".to_string());
    names.insert(ArtifactId::new("b"), "two".to_string());
    names.insert(ArtifactId::new("a"), "three".to_string());
    assert_eq!(names.len(), 2);
    assert_eq!(names.get(&ArtifactId::new("a")).map(|s| s.as_str()), Some("three"));
    assert_eq!(names.get(&ArtifactId::new("b")).map(|s| s.as_str()), Some("two"));
    assert_eq!(names.get(&ArtifactId::new("c")), None);
}

#[test]
fn source_ref_file_name_takes_archive_entry_and_last_segment() {
    assert_eq!(
        SourceRef::new("zip:/roms/set.zip#Sonic the Hedgehog.bin").file_name(),
        "Sonic the Hedgehog.bin"
    );
    assert_eq!(SourceRef::new("file:/roms/game.bin").file_name(), "game.bin");
    assert_eq!(SourceRef::new("bios").file_name(), "bios");
}
