use std::sync::Arc;

use retromount::model::source::SourceRef;
use retromount::output::capabilities::{CapabilityRequirements, ContentType, EncoderCapability, Format};
use retromount::output::encode::{
    ArtifactNames, MaterializationContext, MaterializedArtifact, OutputEncoder,
};
use retromount::output::plan::{
    ArtifactId, ArtifactReference, ArtifactRequest, GeneratedArtifact, PlannedArtifactKind,
    PlaylistArtifact, SourceArtifact,
};
use retromount::output::plugin_client::{materialize_via_plugin, EncoderPluginClient};
use retromount::output::plugin_encoder::PluginBackedEncoder;
use retromount::output::plugin_protocol::{
    encoder_plugin_protocol_v1, MaterializationRequest, MaterializationResponse, PluginManifest,
    ProtocolCapabilityFeature, ProtocolContentType, ProtocolEncoderCapability, ProtocolError,
    ProtocolFormat, ProtocolInlineFile, ProtocolMaterializedSourceFile,
};
use retromount::output::plugin_registry::PluginRegistry;
use retromount::output::plugin_runtime::SubprocessEncoderPluginClient;

/// A client that answers with fixed values.
#[derive(Clone, Copy)]
struct StaticEncoderPluginClient {
    manifest: fn() -> PluginManifest,
    response: fn() -> MaterializationResponse,
}

impl EncoderPluginClient for StaticEncoderPluginClient {
    fn manifest(&self) -> Result<PluginManifest, ProtocolError> {
        Ok((self.manifest)())
    }

    fn materialize(
        &self,
        _request: &MaterializationRequest,
    ) -> Result<MaterializationResponse, ProtocolError> {
        Ok((self.response)())
    }
}

fn disc_manifest() -> PluginManifest {
    PluginManifest {
        plugin_id: "plugin.example".to_string(),
        plugin_version: "0.1.0".to_string(),
        protocol_version: encoder_plugin_protocol_v1(),
        display_name: Some("Example Plugin".to_string()),
        description: Some("Example disc encoder".to_string()),
        capabilities: vec![ProtocolEncoderCapability::new("disc.iso", ProtocolContentType::Disc)
            .supports_format(ProtocolFormat::Iso)
            .with_feature(ProtocolCapabilityFeature::Lossless)],
    }
}

fn playlist_manifest() -> PluginManifest {
    PluginManifest {
        plugin_id: "plugin.example".to_string(),
        plugin_version: "0.1.0".to_string(),
        protocol_version: encoder_plugin_protocol_v1(),
        display_name: Some("Example Plugin".to_string()),
        description: Some("Example playlist encoder".to_string()),
        capabilities: vec![
            ProtocolEncoderCapability::new("playlist.m3u", ProtocolContentType::Playlist)
                .supports_format(ProtocolFormat::M3u)
                .with_feature(ProtocolCapabilityFeature::MultiSource),
        ],
    }
}

fn plain_disc_manifest() -> PluginManifest {
    PluginManifest {
        plugin_id: "plugin.example".to_string(),
        plugin_version: "0.1.0".to_string(),
        protocol_version: encoder_plugin_protocol_v1(),
        display_name: None,
        description: None,
        capabilities: vec![ProtocolEncoderCapability::new("disc.iso", ProtocolContentType::Disc)
            .supports_format(ProtocolFormat::Iso)],
    }
}

fn registry_manifest() -> PluginManifest {
    PluginManifest {
        plugin_id: "plugin.test".to_string(),
        ..plain_disc_manifest()
    }
}

fn invalid_manifest() -> PluginManifest {
    PluginManifest {
        plugin_id: String::new(),
        ..plain_disc_manifest()
    }
}

fn game_iso_response() -> MaterializationResponse {
    MaterializationResponse::SourceBacked(ProtocolMaterializedSourceFile {
        source: "file:/roms/game.iso".to_string(),
        size: 4096,
    })
}

fn playlist_response() -> MaterializationResponse {
    MaterializationResponse::Inline(ProtocolInlineFile {
        bytes: b"Game (Disc 1).cue\nGame (Disc 2).cue\n".to_vec(),
    })
}

fn game_iso_request(id: &str) -> ArtifactRequest {
    ArtifactRequest::new(
        ArtifactId::new(id),
        PlannedArtifactKind::SourceBacked(SourceArtifact::single(
            SourceRef::new("file:/roms/game.iso"),
            4096,
        )),
        CapabilityRequirements::new(ContentType::Disc).with_format(Format::Iso),
    )
}

fn empty_context() -> MaterializationContext {
    MaterializationContext {
        artifact_names: ArtifactNames::new(),
    }
}

#[test]
fn materializes_source_backed_artifact_via_plugin_client() {
    let client = StaticEncoderPluginClient {
        manifest: disc_manifest,
        response: game_iso_response,
    };

    let artifact = game_iso_request("game-1");
    let context = empty_context();

    let materialized =
        materialize_via_plugin(&client, "Game.iso", &artifact, "disc.iso", &context).unwrap();

    assert_eq!(
        materialized,
        MaterializedArtifact::SourceBacked {
            source: SourceRef::new("file:/roms/game.iso"),
            size: 4096,
        }
    );
}

#[test]
fn rejects_request_when_selected_capability_is_unknown() {
    let client = StaticEncoderPluginClient {
        manifest: disc_manifest,
        response: game_iso_response,
    };

    let artifact = game_iso_request("game-1");
    let context = empty_context();

    let error = materialize_via_plugin(&client, "Game.iso", &artifact, "missing.capability", &context)
        .unwrap_err();

    assert_eq!(
        error,
        ProtocolError::UnknownCapabilityId {
            capability_id: "missing.capability".to_string(),
        }
    );
}

#[test]
fn materializes_inline_playlist_output_via_plugin_client() {
    let client = StaticEncoderPluginClient {
        manifest: playlist_manifest,
        response: playlist_response,
    };

    let artifact = ArtifactRequest::new(
        ArtifactId::new("playlist-1"),
        PlannedArtifactKind::Generated(GeneratedArtifact::Playlist(PlaylistArtifact::new(vec![
            ArtifactReference::new(ArtifactId::new("disc-1")),
            ArtifactReference::new(ArtifactId::new("disc-2")),
        ]))),
        CapabilityRequirements::new(ContentType::Playlist).with_format(Format::M3u),
    );

    let mut artifact_names = ArtifactNames::new();
    artifact_names.insert(ArtifactId::new("disc-1"), "Game (Disc 1).cue".to_string());
    artifact_names.insert(ArtifactId::new("disc-2"), "Game (Disc 2).cue".to_string());

    let context = MaterializationContext { artifact_names };

    let materialized =
        materialize_via_plugin(&client, "Game.m3u", &artifact, "playlist.m3u", &context).unwrap();

    assert_eq!(
        materialized,
        MaterializedArtifact::Inline(b"Game (Disc 1).cue\nGame (Disc 2).cue\n".to_vec())
    );
}

#[test]
fn plugin_rejects_playlist_whose_discs_have_no_names() {
    let client = StaticEncoderPluginClient {
        manifest: playlist_manifest,
        response: playlist_response,
    };
    let artifact = ArtifactRequest::new(
        ArtifactId::new("playlist-1"),
        PlannedArtifactKind::Generated(GeneratedArtifact::Playlist(PlaylistArtifact::new(vec![
            ArtifactReference::new(ArtifactId::new("disc-1")),
        ]))),
        CapabilityRequirements::new(ContentType::Playlist).with_format(Format::M3u),
    );
    let error = materialize_via_plugin(&client, "Game.m3u", &artifact, "playlist.m3u", &empty_context())
        .unwrap_err();
    assert_eq!(
        error,
        ProtocolError::MissingContext {
            message: "missing artifact name for referenced artifact 'disc-1'".to_string(),
        }
    );
}

#[test]
fn plugin_encoder_integrates_with_output_encoder_trait() {
    let client: Arc<dyn EncoderPluginClient> = Arc::new(StaticEncoderPluginClient {
        manifest: plain_disc_manifest,
        response: game_iso_response,
    });

    let encoder = PluginBackedEncoder::new(
        "plugin.example".to_string(),
        vec![EncoderCapability::new("plugin.example", "disc.iso", ContentType::Disc)
            .supports_format(Format::Iso)],
        client,
    );

    let artifact = game_iso_request("game");
    let context = empty_context();

    let result = encoder
        .materialize("Game.iso", &artifact, "disc.iso", &context)
        .unwrap();

    assert_eq!(
        result,
        MaterializedArtifact::SourceBacked {
            source: SourceRef::new("file:/roms/game.iso"),
            size: 4096,
        }
    );
}

#[test]
fn builds_plugin_encoder_from_manifest() {
    let manifest = plain_disc_manifest();
    let expected_plugin_id = manifest.plugin_id.clone();
    let expected_capability_count = manifest.capabilities.len();

    let client: Arc<dyn EncoderPluginClient> = Arc::new(StaticEncoderPluginClient {
        manifest: plain_disc_manifest,
        response: game_iso_response,
    });
    let encoder = PluginBackedEncoder::from_client(client).unwrap();

    assert_eq!(encoder.plugin_id(), expected_plugin_id);
    assert_eq!(encoder.capabilities().len(), expected_capability_count);

    let capability = &encoder.capabilities()[0];
    assert_eq!(capability.plugin_id, "plugin.example");
    assert_eq!(capability.capability_id, "disc.iso");
    assert_eq!(capability.content_type, ContentType::Disc);
    assert!(capability.formats.contains(&Format::Iso));
}

#[test]
fn plugin_encoder_from_invalid_manifest_is_refused() {
    let client = StaticEncoderPluginClient {
        manifest: invalid_manifest,
        response: game_iso_response,
    };
    match PluginBackedEncoder::from_client(client) {
        Ok(_) => panic!("expected invalid manifest error"),
        Err(error) => assert_eq!(
            error,
            ProtocolError::InvalidManifest {
                message: "plugin_id must not be empty".to_string(),
            }
        ),
    }
}

#[test]
fn registers_valid_plugin_client() {
    let mut registry = PluginRegistry::new();

    let client: Arc<dyn EncoderPluginClient> = Arc::new(StaticEncoderPluginClient {
        manifest: registry_manifest,
        response: game_iso_response,
    });

    registry.register(client).unwrap();

    assert_eq!(registry.len(), 1);
    assert!(!registry.is_empty());
}

#[test]
fn builds_encoders_from_registered_clients() {
    let mut registry = PluginRegistry::new();

    let client: Arc<dyn EncoderPluginClient> = Arc::new(StaticEncoderPluginClient {
        manifest: registry_manifest,
        response: game_iso_response,
    });

    registry.register(client).unwrap();

    let encoders = registry.build_encoders().unwrap();

    assert_eq!(encoders.len(), 1);
    assert_eq!(encoders[0].0.plugin_id(), "plugin.test");
    assert_eq!(encoders[0].0.capabilities().len(), 1);
}

#[test]
fn rejects_invalid_plugin_manifest_during_registration() {
    let mut registry = PluginRegistry::new();

    let client: Arc<dyn EncoderPluginClient> = Arc::new(StaticEncoderPluginClient {
        manifest: invalid_manifest,
        response: game_iso_response,
    });

    let error = registry.register(client).unwrap_err();

    assert_eq!(
        error,
        ProtocolError::InvalidManifest {
            message: "plugin_id must not be empty".to_string(),
        }
    );
    assert!(registry.is_empty());
}

#[test]
fn executable_path_is_exposed() {
    let path = "/tmp/example-plugin";
    let client = SubprocessEncoderPluginClient::new(path);

    assert_eq!(client.executable(), path);
}

/// A client that cannot be reached.
struct UnreachableClient;

impl EncoderPluginClient for UnreachableClient {
    fn manifest(&self) -> Result<PluginManifest, ProtocolError> {
        Err(ProtocolError::InternalPluginError {
            message: "plugin is not running".to_string(),
        })
    }

    fn materialize(
        &self,
        _request: &MaterializationRequest,
    ) -> Result<MaterializationResponse, ProtocolError> {
        Err(ProtocolError::InternalPluginError {
            message: "plugin is not running".to_string(),
        })
    }
}

/// A client that answers its first manifest request and none after it.
struct OnceClient {
    calls: std::sync::atomic::AtomicUsize,
}

impl EncoderPluginClient for OnceClient {
    fn manifest(&self) -> Result<PluginManifest, ProtocolError> {
        if self.calls.fetch_add(1, std::sync::atomic::Ordering::SeqCst) == 0 {
            Ok(registry_manifest())
        } else {
            Err(ProtocolError::InternalPluginError {
                message: "plugin went away".to_string(),
            })
        }
    }

    fn materialize(
        &self,
        _request: &MaterializationRequest,
    ) -> Result<MaterializationResponse, ProtocolError> {
        Ok(game_iso_response())
    }
}

#[test]
fn registration_returns_the_client_error_as_it_came() {
    let mut registry = PluginRegistry::new();
    let client: Arc<dyn EncoderPluginClient> = Arc::new(UnreachableClient);

    let error = registry.register(client).unwrap_err();

    assert_eq!(
        error,
        ProtocolError::InternalPluginError {
            message: "plugin is not running".to_string(),
        }
    );
    assert!(registry.is_empty());
}

#[test]
fn building_encoders_returns_the_error_of_a_client_that_fails() {
    let mut registry = PluginRegistry::new();
    let client: Arc<dyn EncoderPluginClient> = Arc::new(OnceClient {
        calls: std::sync::atomic::AtomicUsize::new(0),
    });
    registry.register(client).unwrap();
    assert_eq!(registry.len(), 1);

    let Err(error) = registry.build_encoders() else {
        panic!("expected the second manifest request to fail");
    };

    assert_eq!(
        error,
        ProtocolError::InternalPluginError {
            message: "plugin went away".to_string(),
        }
    );
}

#[test]
fn materializing_through_an_unreachable_plugin_returns_its_error() {
    let client = UnreachableClient;
    let artifact = game_iso_request("game:iso");
    let error = materialize_via_plugin(&client, "Game.iso", &artifact, "disc.iso", &empty_context())
        .unwrap_err();
    assert_eq!(
        error,
        ProtocolError::InternalPluginError {
            message: "plugin is not running".to_string(),
        }
    );
}
