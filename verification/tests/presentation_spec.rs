use retromount::output::capabilities::{CapabilityFeature, ContentType, Format};
use retromount::output::presentation_spec::{
    ArtifactSpec, FileRuleSpec, LayoutSpec, NamingSpec, PresentationSpec, SelectSpec,
};

#[test]
fn builds_minimal_flat_disc_spec() {
    let spec = PresentationSpec::new(
        LayoutSpec::Flat,
        vec![FileRuleSpec::new(
            SelectSpec::SingleDiscGames,
            NamingSpec::PartName,
            ArtifactSpec::new(ContentType::Disc).with_format(Format::Bin),
        )],
    );

    assert_eq!(spec.layout, LayoutSpec::Flat);
    assert_eq!(spec.files.len(), 1);
    assert!(spec.files[0].directory.is_empty());
    assert_eq!(spec.files[0].select, SelectSpec::SingleDiscGames);
    assert_eq!(spec.files[0].naming, NamingSpec::PartName);
    assert_eq!(spec.files[0].artifact.content_type, ContentType::Disc);
    assert_eq!(spec.files[0].artifact.format, Some(Format::Bin));
}

#[test]
fn artifact_spec_builder_sets_feature_sets() {
    let artifact = ArtifactSpec::new(ContentType::Disc)
        .with_format(Format::Chd)
        .require_feature(CapabilityFeature::Lossless)
        .prefer_feature(CapabilityFeature::RandomAccess)
        .forbid_feature(CapabilityFeature::SupportsPartial);

    assert_eq!(artifact.content_type, ContentType::Disc);
    assert_eq!(artifact.format, Some(Format::Chd));
    assert!(artifact.required_features.contains(&CapabilityFeature::Lossless));
    assert!(artifact.preferred_features.contains(&CapabilityFeature::RandomAccess));
    assert!(artifact.forbidden_features.contains(&CapabilityFeature::SupportsPartial));
}

#[test]
fn supports_literal_names() {
    let rule = FileRuleSpec::new(
        SelectSpec::Text,
        NamingSpec::Literal("readme.txt".to_string()),
        ArtifactSpec::new(ContentType::Text).with_format(Format::Text),
    );

    assert_eq!(rule.select, SelectSpec::Text);
    assert_eq!(rule.naming, NamingSpec::Literal("readme.txt".to_string()));
    assert_eq!(rule.artifact.content_type, ContentType::Text);
    assert_eq!(rule.artifact.format, Some(Format::Text));
}

#[test]
fn supports_rule_destination_directories() {
    let rule = FileRuleSpec::new(
        SelectSpec::Text,
        NamingSpec::Literal("readme.txt".to_string()),
        ArtifactSpec::new(ContentType::Text).with_format(Format::Text),
    )
    .in_directory(&["docs", "manual"]);

    assert_eq!(rule.directory, ["docs", "manual"]);
}

#[test]
fn artifact_spec_starts_without_format_or_features() {
    let artifact = ArtifactSpec::new(ContentType::Rom);
    assert_eq!(artifact.format, None);
    assert!(artifact.required_features.is_empty());
    assert!(artifact.preferred_features.is_empty());
    assert!(artifact.forbidden_features.is_empty());
}
