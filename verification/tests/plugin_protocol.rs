use retromount::output::plugin_protocol::{
    encoder_plugin_protocol_v1, ensure_protocol_compatible, validate_manifest,
    validate_materialization_request, MaterializationRequest, PluginManifest,
    ProtocolArtifactKind, ProtocolArtifactReference, ProtocolCapabilityFeature,
    ProtocolCapabilityRequirements, ProtocolContentType, ProtocolEncoderCapability, ProtocolError,
    ProtocolFormat, ProtocolGeneratedArtifact, ProtocolMaterializationContext,
    ProtocolPlaylistArtifact, ProtocolSourceArtifact, ProtocolVersion,
};

fn valid_manifest() -> PluginManifest {
    PluginManifest {
        plugin_id: "plugin.example".to_string(),
        plugin_version: "0.1.0".to_string(),
        protocol_version: encoder_plugin_protocol_v1(),
        display_name: Some("Example Plugin".to_string()),
        description: Some("Example encoder plugin".to_string()),
        capabilities: vec![
            ProtocolEncoderCapability::new("disc.chd", ProtocolContentType::Disc)
                .supports_format(ProtocolFormat::Chd)
                .with_feature(ProtocolCapabilityFeature::Lossless)
                .with_priority(100),
            ProtocolEncoderCapability::new("playlist.m3u", ProtocolContentType::Playlist)
                .supports_format(ProtocolFormat::M3u)
                .with_feature(ProtocolCapabilityFeature::MultiSource),
        ],
    }
}

#[test]
fn accepts_valid_manifest() {
    let manifest = valid_manifest();
    assert_eq!(validate_manifest(&manifest), Ok(()));
}

#[test]
fn rejects_empty_plugin_id() {
    let mut manifest = valid_manifest();
    manifest.plugin_id = String::new();

    assert_eq!(
        validate_manifest(&manifest),
        Err(ProtocolError::InvalidManifest {
            message: "plugin_id must not be empty".to_string(),
        })
    );
}

#[test]
fn rejects_duplicate_capability_ids() {
    let mut manifest = valid_manifest();
    manifest.capabilities.push(
        ProtocolEncoderCapability::new("disc.chd", ProtocolContentType::Disc)
            .supports_format(ProtocolFormat::Chd),
    );

    assert_eq!(
        validate_manifest(&manifest),
        Err(ProtocolError::InvalidManifest {
            message: "duplicate capability_id 'disc.chd'".to_string(),
        })
    );
}

#[test]
fn rejects_incompatible_protocol_version() {
    let manifest = PluginManifest {
        protocol_version: ProtocolVersion::new(2, 0),
        ..valid_manifest()
    };

    assert_eq!(
        validate_manifest(&manifest),
        Err(ProtocolError::IncompatibleProtocolVersion {
            host: encoder_plugin_protocol_v1(),
            plugin: ProtocolVersion::new(2, 0),
        })
    );
}

#[test]
fn request_validation_rejects_unknown_capability_id() {
    let manifest = valid_manifest();
    let request = MaterializationRequest {
        artifact_id: "artifact-1".to_string(),
        logical_name: "Game.chd".to_string(),
        selected_capability_id: "missing.capability".to_string(),
        artifact_kind: ProtocolArtifactKind::SourceBacked(ProtocolSourceArtifact::single(
            "file:/roms/game.bin",
            1024,
        )),
        requirements: ProtocolCapabilityRequirements::new(ProtocolContentType::Disc)
            .with_format(ProtocolFormat::Chd),
        context: ProtocolMaterializationContext::default(),
    };

    assert_eq!(
        validate_materialization_request(&request, &manifest),
        Err(ProtocolError::UnknownCapabilityId {
            capability_id: "missing.capability".to_string(),
        })
    );
}

#[test]
fn request_validation_accepts_playlist_with_context() {
    let manifest = valid_manifest();
    let request = MaterializationRequest {
        artifact_id: "playlist-1".to_string(),
        logical_name: "Game.m3u".to_string(),
        selected_capability_id: "playlist.m3u".to_string(),
        artifact_kind: ProtocolArtifactKind::Generated(ProtocolGeneratedArtifact::Playlist(
            ProtocolPlaylistArtifact::new(vec![
                ProtocolArtifactReference::new("disc-1"),
                ProtocolArtifactReference::new("disc-2"),
            ]),
        )),
        requirements: ProtocolCapabilityRequirements::new(ProtocolContentType::Playlist)
            .with_format(ProtocolFormat::M3u),
        context: ProtocolMaterializationContext::default()
            .with_artifact_name("disc-1", "Game (Disc 1).cue")
            .with_artifact_name("disc-2", "Game (Disc 2).cue"),
    };

    assert_eq!(validate_materialization_request(&request, &manifest), Ok(()));
}

#[test]
fn request_validation_rejects_playlist_without_context() {
    let manifest = valid_manifest();
    let request = MaterializationRequest {
        artifact_id: "playlist-1".to_string(),
        logical_name: "Game.m3u".to_string(),
        selected_capability_id: "playlist.m3u".to_string(),
        artifact_kind: ProtocolArtifactKind::Generated(ProtocolGeneratedArtifact::Playlist(
            ProtocolPlaylistArtifact::new(vec![ProtocolArtifactReference::new("disc-1")]),
        )),
        requirements: ProtocolCapabilityRequirements::new(ProtocolContentType::Playlist)
            .with_format(ProtocolFormat::M3u),
        context: ProtocolMaterializationContext::default(),
    };

    assert_eq!(
        validate_materialization_request(&request, &manifest),
        Err(ProtocolError::MissingContext {
            message: "missing artifact name for referenced artifact 'disc-1'".to_string(),
        })
    );
}

#[test]
fn only_the_exact_host_protocol_version_is_compatible() {
    let host = encoder_plugin_protocol_v1();
    assert_eq!(ensure_protocol_compatible(&host, &ProtocolVersion::new(1, 0)), Ok(()));
    assert_eq!(
        ensure_protocol_compatible(&host, &ProtocolVersion::new(1, 1)),
        Err(ProtocolError::IncompatibleProtocolVersion {
            host: ProtocolVersion::new(1, 0),
            plugin: ProtocolVersion::new(1, 1),
        })
    );
}

#[test]
fn artifact_name_lookup_finds_the_recorded_name() {
    let context = ProtocolMaterializationContext::default()
        .with_artifact_name("disc-1", "Game (Disc 1).cue");
    assert_eq!(context.artifact_name_for("disc-1"), Some("Game (Disc 1).cue"));
    assert_eq!(context.artifact_name_for("disc-2"), None);
}
