use retromount::model::content::{DiscMedia, Platform};
use retromount::output::capabilities::{CapabilityFeature, ContentType, Format};
use retromount::output::presentation_file::{
    document_from_serialized, parse_virtual_directory, SerializedArtifact, SerializedFileRule,
    SerializedLayout, SerializedNaming, SerializedPresentation,
};
use retromount::output::presentation_spec::{LayoutSpec, NamingSpec, SelectSpec};

/// The document that the YAML below describes:
///
/// ```yaml
/// version: 1
/// name: opl
/// layout: { type: literal_root, path: DVD }
/// files:
///   - directory: DVD
///     select: { type: single_disc_games_by_platform_and_media, platform: ps2, media: dvd }
///     naming: { type: game_title }
///     artifact:
///       content_type: disc
///       format: iso
///       required_features: [random_access, lossless]
/// ```
fn valid() -> SerializedPresentation {
    SerializedPresentation {
        version: 1,
        name: "opl".to_string(),
        layout: SerializedLayout::LiteralRoot {
            path: "DVD".to_string(),
        },
        files: vec![SerializedFileRule {
            directory: Some("DVD".to_string()),
            select: SelectSpec::SingleDiscGamesByPlatformAndMedia {
                platform: Platform::Ps2,
                media: DiscMedia::Dvd,
            },
            naming: SerializedNaming::GameTitle,
            artifact: SerializedArtifact {
                content_type: ContentType::Disc,
                format: Some(Format::Iso),
                required_features: vec![CapabilityFeature::Lossless, CapabilityFeature::RandomAccess],
                preferred_features: vec![],
                forbidden_features: vec![],
            },
            source_formats: vec![],
            excluded_source_formats: vec![],
        }],
    }
}

#[test]
fn accepts_a_versioned_opl_presentation() {
    let document = document_from_serialized(&valid()).unwrap();

    assert_eq!(document.name, "opl");
    assert_eq!(document.spec.layout, LayoutSpec::LiteralRoot("DVD".to_string()));
    assert_eq!(document.spec.files.len(), 1);
    assert_eq!(document.spec.files[0].directory, ["DVD"]);
    assert_eq!(
        document.spec.files[0].select,
        SelectSpec::SingleDiscGamesByPlatformAndMedia {
            platform: Platform::Ps2,
            media: DiscMedia::Dvd,
        }
    );
    assert_eq!(document.spec.files[0].naming, NamingSpec::GameTitle);
    assert!(document.spec.files[0]
        .artifact
        .required_features
        .contains(&CapabilityFeature::RandomAccess));
}

#[test]
fn rejects_unknown_schema_versions() {
    let document = SerializedPresentation {
        version: 2,
        ..valid()
    };
    let error = document_from_serialized(&document).unwrap_err();
    assert_eq!(error, "unsupported schema version 2; expected 1");
}

#[test]
fn rejects_empty_rules_and_conflicting_features() {
    let empty = SerializedPresentation {
        version: 1,
        name: "empty".to_string(),
        layout: SerializedLayout::Flat,
        files: vec![],
    };
    assert!(document_from_serialized(&empty)
        .unwrap_err()
        .contains("at least one rule"));

    let mut conflicting = valid();
    conflicting.files[0].artifact.forbidden_features = vec![CapabilityFeature::Lossless];
    let error = document_from_serialized(&conflicting).unwrap_err();
    assert!(error.contains("both required and forbidden"));
    assert_eq!(
        error,
        "files[0]: feature Lossless cannot be both required and forbidden"
    );
}

#[test]
fn rejects_unsafe_rule_destination_directories() {
    for directory in ["", "/DVD", "../DVD", "games//DVD", "C:\\DVD"] {
        let mut document = valid();
        document.files[0].directory = Some(directory.to_string());
        let error = document_from_serialized(&document).unwrap_err();

        assert!(
            error.contains("directory"),
            "expected directory error for {directory:?}, got {error}"
        );
    }
}

#[test]
fn directory_paths_split_on_both_separators_and_trim_segments() {
    assert_eq!(
        parse_virtual_directory("games\\ ps2 /DVD").unwrap(),
        vec!["games", "ps2", "DVD"]
    );
    assert_eq!(
        parse_virtual_directory("   ").unwrap_err(),
        "directory must not be empty"
    );
    assert_eq!(
        parse_virtual_directory("\\DVD").unwrap_err(),
        "directory must be a relative virtual path"
    );
    assert_eq!(
        parse_virtual_directory("a/./b").unwrap_err(),
        "directory must not contain empty, current, or parent path segments"
    );
    assert_eq!(
        parse_virtual_directory("C:/DVD").unwrap_err(),
        "directory must not contain a drive prefix"
    );
}

#[test]
fn names_are_trimmed_and_blank_names_refused() {
    let padded = SerializedPresentation {
        name: "  opl  ".to_string(),
        ..valid()
    };
    assert_eq!(document_from_serialized(&padded).unwrap().name, "opl");

    let blank = SerializedPresentation {
        name: " ".to_string(),
        ..valid()
    };
    assert_eq!(document_from_serialized(&blank).unwrap_err(), "name must not be empty");
}

#[test]
fn literal_names_and_root_paths_must_not_be_blank() {
    let mut literal = valid();
    literal.files[0].naming = SerializedNaming::Literal {
        value: "\t".to_string(),
    };
    assert_eq!(
        document_from_serialized(&literal).unwrap_err(),
        "files[0]: naming.value must not be empty"
    );

    let root = SerializedPresentation {
        layout: SerializedLayout::LiteralRoot {
            path: String::new(),
        },
        ..valid()
    };
    assert_eq!(
        document_from_serialized(&root).unwrap_err(),
        "layout.path must not be empty"
    );
}

#[test]
fn preferred_and_forbidden_feature_conflicts_name_the_first_feature() {
    let mut document = valid();
    document.files[0].artifact.required_features = vec![];
    document.files[0].artifact.preferred_features =
        vec![CapabilityFeature::MultiFile, CapabilityFeature::Streaming];
    document.files[0].artifact.forbidden_features =
        vec![CapabilityFeature::MultiFile, CapabilityFeature::Streaming];
    assert_eq!(
        document_from_serialized(&document).unwrap_err(),
        "files[0]: feature Streaming cannot be both preferred and forbidden"
    );
}
