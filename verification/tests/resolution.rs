use retromount::model::source::SourceRef;
use retromount::output::capabilities::{
    CapabilityFeature, CapabilityRequirements, ContentType, EncoderCapability, Format,
};
use retromount::output::plan::{
    ArtifactId, ArtifactRequest, PlannedArtifactKind, SourceArtifact, SourceArtifactInput,
};
use retromount::output::resolution::{
    CapabilityResolver, RejectionReason, ResolutionResult, ResolutionScore,
};

fn request(requirements: CapabilityRequirements) -> ArtifactRequest {
    ArtifactRequest {
        id: ArtifactId::new("artifact-1"),
        kind: PlannedArtifactKind::SourceBacked(SourceArtifact::single(
            SourceRef::new("file:/roms/game.bin"),
            1024,
        )),
        requirements,
    }
}

#[test]
fn resolves_exact_match() {
    let resolver = CapabilityResolver;
    let request = request(CapabilityRequirements::new(ContentType::Disc).with_format(Format::Chd));

    let capabilities = vec![
        EncoderCapability::new("builtin.zip", "disc.zip", ContentType::Disc)
            .supports_format(Format::Zip),
        EncoderCapability::new("builtin.chd", "disc.chd", ContentType::Disc)
            .supports_format(Format::Chd),
    ];

    let result = resolver.resolve(&request, &capabilities);

    match result {
        ResolutionResult::Resolved { selected, .. } => {
            assert_eq!(selected.plugin_id, "builtin.chd");
            assert_eq!(selected.capability_id, "disc.chd");
            assert_eq!(selected.score, ResolutionScore::new(0, 0, 0));
        }
        ResolutionResult::Unresolved { .. } => panic!("expected resolution success"),
    }
}

#[test]
fn prefers_more_preferred_features() {
    let resolver = CapabilityResolver;
    let request = request(
        CapabilityRequirements::new(ContentType::Disc)
            .with_format(Format::Chd)
            .prefer_feature(CapabilityFeature::Lossless)
            .prefer_feature(CapabilityFeature::RandomAccess),
    );

    let capabilities = vec![
        EncoderCapability::new("plugin.a", "cap.a", ContentType::Disc)
            .supports_format(Format::Chd)
            .with_feature(CapabilityFeature::Lossless),
        EncoderCapability::new("plugin.b", "cap.b", ContentType::Disc)
            .supports_format(Format::Chd)
            .with_feature(CapabilityFeature::Lossless)
            .with_feature(CapabilityFeature::RandomAccess),
    ];

    let result = resolver.resolve(&request, &capabilities);

    match result {
        ResolutionResult::Resolved { selected, .. } => {
            assert_eq!(selected.plugin_id, "plugin.b");
            assert_eq!(selected.capability_id, "cap.b");
            assert_eq!(selected.score.matched_preferred_features, 2);
            assert_eq!(selected.score.capability_priority, 0);
            assert_eq!(selected.score.capability_feature_count, 2);
        }
        ResolutionResult::Unresolved { .. } => panic!("expected resolution success"),
    }
}

#[test]
fn rejects_forbidden_feature() {
    let resolver = CapabilityResolver;
    let request = request(
        CapabilityRequirements::new(ContentType::Disc)
            .with_format(Format::Chd)
            .forbid_feature(CapabilityFeature::SupportsPartial),
    );

    let capabilities = vec![
        EncoderCapability::new("plugin.a", "cap.a", ContentType::Disc)
            .supports_format(Format::Chd)
            .with_feature(CapabilityFeature::SupportsPartial),
    ];

    let result = resolver.resolve(&request, &capabilities);

    match result {
        ResolutionResult::Resolved { .. } => panic!("expected unresolved result"),
        ResolutionResult::Unresolved { diagnostics } => {
            assert_eq!(diagnostics.selected_capability_id, None);
            assert_eq!(diagnostics.candidates.len(), 1);
            assert_eq!(diagnostics.candidates[0].score, None);
            assert_eq!(
                diagnostics.candidates[0].rejection_reasons,
                vec![RejectionReason::ForbiddenFeaturePresent(
                    CapabilityFeature::SupportsPartial
                )]
            );
        }
    }
}

#[test]
fn rejects_multi_source_when_not_supported() {
    let resolver = CapabilityResolver;

    let request = ArtifactRequest {
        id: ArtifactId::new("playlist-1"),
        kind: PlannedArtifactKind::SourceBacked(SourceArtifact::multiple(vec![
            SourceArtifactInput {
                source: SourceRef::new("file:/roms/disc1.chd"),
                size: 1024,
            },
            SourceArtifactInput {
                source: SourceRef::new("file:/roms/disc2.chd"),
                size: 2048,
            },
        ])),
        requirements: CapabilityRequirements::new(ContentType::Playlist).with_format(Format::M3u),
    };

    let capabilities = vec![
        EncoderCapability::new("plugin.a", "cap.a", ContentType::Playlist)
            .supports_format(Format::M3u),
    ];

    let result = resolver.resolve(&request, &capabilities);

    match result {
        ResolutionResult::Resolved { .. } => panic!("expected unresolved result"),
        ResolutionResult::Unresolved { diagnostics } => {
            assert_eq!(diagnostics.selected_capability_id, None);
            assert_eq!(diagnostics.candidates[0].score, None);
            assert_eq!(
                diagnostics.candidates[0].rejection_reasons,
                vec![RejectionReason::MultiSourceNotSupported]
            );
        }
    }
}

#[test]
fn higher_priority_wins_when_scores_match() {
    let resolver = CapabilityResolver;
    let request = request(CapabilityRequirements::new(ContentType::Disc).with_format(Format::Chd));

    let capabilities = vec![
        EncoderCapability::new("plugin.a", "cap.a", ContentType::Disc)
            .supports_format(Format::Chd)
            .with_priority(10),
        EncoderCapability::new("plugin.b", "cap.b", ContentType::Disc)
            .supports_format(Format::Chd)
            .with_priority(20),
    ];

    let result = resolver.resolve(&request, &capabilities);

    match result {
        ResolutionResult::Resolved { selected, .. } => {
            assert_eq!(selected.plugin_id, "plugin.b");
            assert_eq!(selected.capability_id, "cap.b");
            assert_eq!(selected.score.capability_priority, 20);
        }
        ResolutionResult::Unresolved { .. } => panic!("expected resolution success"),
    }
}

#[test]
fn tie_breaks_deterministically() {
    let resolver = CapabilityResolver;
    let request = request(CapabilityRequirements::new(ContentType::Disc).with_format(Format::Chd));

    let capabilities = vec![
        EncoderCapability::new("plugin.z", "cap.z", ContentType::Disc)
            .supports_format(Format::Chd),
        EncoderCapability::new("plugin.a", "cap.a", ContentType::Disc)
            .supports_format(Format::Chd),
    ];

    let result = resolver.resolve(&request, &capabilities);

    match result {
        ResolutionResult::Resolved { selected, .. } => {
            assert_eq!(selected.plugin_id, "plugin.a");
            assert_eq!(selected.capability_id, "cap.a");
        }
        ResolutionResult::Unresolved { .. } => panic!("expected resolution success"),
    }
}

#[test]
fn diagnostics_capture_scores_for_accepted_candidates() {
    let resolver = CapabilityResolver;
    let request = request(
        CapabilityRequirements::new(ContentType::Disc)
            .with_format(Format::Chd)
            .prefer_feature(CapabilityFeature::Lossless),
    );

    let capabilities = vec![
        EncoderCapability::new("plugin.a", "cap.a", ContentType::Disc)
            .supports_format(Format::Chd)
            .with_feature(CapabilityFeature::Lossless)
            .with_priority(5),
        EncoderCapability::new("plugin.b", "cap.b", ContentType::Disc)
            .supports_format(Format::Zip),
    ];

    let result = resolver.resolve(&request, &capabilities);

    match result {
        ResolutionResult::Resolved { diagnostics, .. } => {
            assert_eq!(diagnostics.selected_capability_id.as_deref(), Some("cap.a"));
            assert_eq!(diagnostics.candidates.len(), 2);

            let accepted = &diagnostics.candidates[0];
            let rejected = &diagnostics.candidates[1];

            assert!(accepted.is_accepted);
            assert_eq!(accepted.score, Some(ResolutionScore::new(1, 5, 1)));

            assert!(!rejected.is_accepted);
            assert_eq!(rejected.score, None);
            assert_eq!(
                rejected.rejection_reasons,
                vec![RejectionReason::FormatMismatch {
                    required: Format::Chd,
                    supported: vec![Format::Zip],
                }]
            );
        }
        ResolutionResult::Unresolved { .. } => panic!("expected resolution success"),
    }
}

#[test]
fn prefers_more_specific_capability_when_other_scores_match() {
    let resolver = CapabilityResolver;
    let request = request(CapabilityRequirements::new(ContentType::Disc).with_format(Format::Chd));

    let capabilities = vec![
        EncoderCapability::new("plugin.a", "cap.a", ContentType::Disc)
            .supports_format(Format::Chd)
            .with_feature(CapabilityFeature::Lossless),
        EncoderCapability::new("plugin.b", "cap.b", ContentType::Disc)
            .supports_format(Format::Chd)
            .with_feature(CapabilityFeature::Lossless)
            .with_feature(CapabilityFeature::RandomAccess),
    ];

    let result = resolver.resolve(&request, &capabilities);

    match result {
        ResolutionResult::Resolved { selected, .. } => {
            assert_eq!(selected.plugin_id, "plugin.a");
            assert_eq!(selected.capability_id, "cap.a");
            assert_eq!(selected.score.capability_feature_count, 1);
        }
        ResolutionResult::Unresolved { .. } => panic!("expected resolution success"),
    }
}

#[test]
fn unresolved_when_no_capability_is_offered() {
    let resolver = CapabilityResolver;
    let request = request(CapabilityRequirements::new(ContentType::Disc).with_format(Format::Chd));
    let result = resolver.resolve(&request, &[]);
    match result {
        ResolutionResult::Unresolved { diagnostics } => {
            assert_eq!(diagnostics.artifact_id, "artifact-1");
            assert!(diagnostics.candidates.is_empty());
        }
        ResolutionResult::Resolved { .. } => panic!("expected unresolved result"),
    }
}

#[test]
fn content_type_mismatch_and_missing_feature_are_both_reported() {
    let resolver = CapabilityResolver;
    let request = request(
        CapabilityRequirements::new(ContentType::Disc)
            .require_feature(CapabilityFeature::Lossless),
    );
    let capabilities = vec![EncoderCapability::new("plugin.a", "cap.a", ContentType::Rom)];
    match resolver.resolve(&request, &capabilities) {
        ResolutionResult::Unresolved { diagnostics } => {
            assert_eq!(
                diagnostics.candidates[0].rejection_reasons,
                vec![
                    RejectionReason::ContentTypeMismatch {
                        required: ContentType::Disc,
                        actual: ContentType::Rom,
                    },
                    RejectionReason::MissingRequiredFeature(CapabilityFeature::Lossless),
                ]
            );
        }
        ResolutionResult::Resolved { .. } => panic!("expected unresolved result"),
    }
}
