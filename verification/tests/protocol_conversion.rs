use retromount::model::source::SourceRef;
use retromount::output::capabilities::{
    CapabilityFeature, CapabilityRequirements, ContentType, EncoderCapability, Format,
};
use retromount::output::encode::{ArtifactNames, MaterializationContext, MaterializedArtifact};
use retromount::output::plan::{
    ArtifactId, ArtifactReference, ArtifactRequest, GeneratedArtifact, PlannedArtifactKind,
    PlaylistArtifact, SourceArtifact,
};
use retromount::output::plugin_protocol::{
    MaterializationRequest, MaterializationResponse, ProtocolArtifactKind,
    ProtocolCapabilityFeature, ProtocolCapabilityRequirements, ProtocolContentType, ProtocolError,
    ProtocolFormat, ProtocolGeneratedArtifact, ProtocolInlineFile, ProtocolMaterializationContext,
    ProtocolMaterializedSourceFile, ProtocolSourceArtifact, ProtocolSourceArtifactInput,
};
use retromount::output::plugin_protocol_conversion::{
    from_materialization_response, from_protocol_content_type, to_artifact_request,
    to_encoder_capability, to_materialization_request, to_protocol_capability,
    to_protocol_content_type, to_protocol_response,
};

#[test]
fn converts_encoder_capability_to_protocol_capability() {
    let capability = EncoderCapability::new("builtin.chd", "disc.chd", ContentType::Disc)
        .supports_format(Format::Chd)
        .with_feature(CapabilityFeature::Lossless)
        .with_priority(100);

    let protocol = to_protocol_capability(&capability);

    assert_eq!(protocol.capability_id, "disc.chd");
    assert_eq!(protocol.content_type, ProtocolContentType::Disc);
    assert!(protocol.formats.contains(&ProtocolFormat::Chd));
    assert!(protocol.features.contains(&ProtocolCapabilityFeature::Lossless));
    assert_eq!(protocol.priority, 100);
}

#[test]
fn converts_artifact_request_to_materialization_request() {
    let artifact = ArtifactRequest::new(
        ArtifactId::new("playlist-1"),
        PlannedArtifactKind::Generated(GeneratedArtifact::Playlist(PlaylistArtifact::new(vec![
            ArtifactReference::new(ArtifactId::new("disc-1")),
            ArtifactReference::new(ArtifactId::new("disc-2")),
        ]))),
        CapabilityRequirements::new(ContentType::Playlist).with_format(Format::M3u),
    );

    let mut artifact_names = ArtifactNames::new();
    artifact_names.insert(ArtifactId::new("disc-1"), "Game (Disc 1).cue".to_string());
    artifact_names.insert(ArtifactId::new("disc-2"), "Game (Disc 2).cue".to_string());

    let context = MaterializationContext { artifact_names };

    let request =
        to_materialization_request("Game.m3u", &artifact, "playlist.m3u", &context).unwrap();

    assert_eq!(request.artifact_id, "playlist-1");
    assert_eq!(request.logical_name, "Game.m3u");
    assert_eq!(request.selected_capability_id, "playlist.m3u");
    assert_eq!(
        request.requirements,
        ProtocolCapabilityRequirements::new(ProtocolContentType::Playlist)
            .with_format(ProtocolFormat::M3u)
    );

    match request.artifact_kind {
        ProtocolArtifactKind::Generated(ProtocolGeneratedArtifact::Playlist(playlist)) => {
            assert_eq!(playlist.entries.len(), 2);
            assert_eq!(playlist.entries[0].artifact_id, "disc-1");
            assert_eq!(playlist.entries[1].artifact_id, "disc-2");
        }
        other => panic!("expected generated playlist artifact, got {other:?}"),
    }

    assert_eq!(request.context.artifact_name_for("disc-1"), Some("Game (Disc 1).cue"));
    assert_eq!(request.context.artifact_name_for("disc-2"), Some("Game (Disc 2).cue"));
}

#[test]
fn converts_materialization_response_to_materialized_artifact() {
    let response = MaterializationResponse::Inline(ProtocolInlineFile {
        bytes: b"hello".to_vec(),
    });

    let artifact = from_materialization_response(response).unwrap();

    assert_eq!(artifact, MaterializedArtifact::Inline(b"hello".to_vec()));
}

#[test]
fn round_trips_request_through_protocol_conversion() {
    let artifact = ArtifactRequest::new(
        ArtifactId::new("game-1"),
        PlannedArtifactKind::SourceBacked(SourceArtifact::single(
            SourceRef::new("file:/roms/game.iso"),
            4096,
        )),
        CapabilityRequirements::new(ContentType::Disc)
            .with_format(Format::Iso)
            .require_feature(CapabilityFeature::Lossless),
    );

    let mut artifact_names = ArtifactNames::new();
    artifact_names.insert(ArtifactId::new("game-1"), "Game.iso".to_string());

    let context = MaterializationContext { artifact_names };

    let protocol_request =
        to_materialization_request("Game.iso", &artifact, "disc.iso", &context).unwrap();

    let (logical_name, decoded_artifact, selected_capability_id, decoded_context) =
        to_artifact_request(protocol_request).unwrap();

    assert_eq!(logical_name, "Game.iso");
    assert_eq!(decoded_artifact, artifact);
    assert_eq!(selected_capability_id, "disc.iso");
    assert_eq!(decoded_context.artifact_names, context.artifact_names);
}

#[test]
fn rejects_empty_protocol_source_when_decoding_request() {
    let request = MaterializationRequest {
        artifact_id: "artifact-1".to_string(),
        logical_name: "Game.iso".to_string(),
        selected_capability_id: "disc.iso".to_string(),
        artifact_kind: ProtocolArtifactKind::SourceBacked(ProtocolSourceArtifact::multiple(vec![
            ProtocolSourceArtifactInput {
                source: String::new(),
                size: 123,
            },
        ])),
        requirements: ProtocolCapabilityRequirements::new(ProtocolContentType::Disc)
            .with_format(ProtocolFormat::Iso),
        context: ProtocolMaterializationContext::default(),
    };

    match to_artifact_request(request) {
        Ok(_) => panic!("expected invalid request error"),
        Err(error) => {
            assert_eq!(
                error,
                ProtocolError::InvalidRequest {
                    message: "source artifact input source must not be empty".to_string(),
                }
            );
        }
    }
}

#[test]
fn source_backed_response_and_artifact_convert_both_ways() {
    let response = MaterializationResponse::SourceBacked(ProtocolMaterializedSourceFile {
        source: "file:/roms/game.iso".to_string(),
        size: 4096,
    });
    let artifact = from_materialization_response(response).unwrap();
    assert_eq!(
        artifact,
        MaterializedArtifact::SourceBacked {
            source: SourceRef::new("file:/roms/game.iso"),
            size: 4096,
        }
    );
    assert_eq!(
        to_protocol_response(artifact).unwrap(),
        MaterializationResponse::SourceBacked(ProtocolMaterializedSourceFile {
            source: "file:/roms/game.iso".to_string(),
            size: 4096,
        })
    );
}

#[test]
fn content_type_mapping_round_trips() {
    for content_type in [
        ContentType::Bytes,
        ContentType::Text,
        ContentType::Rom,
        ContentType::Disc,
        ContentType::Playlist,
    ] {
        assert_eq!(from_protocol_content_type(to_protocol_content_type(content_type)), content_type);
    }
}

#[test]
fn protocol_capability_converts_back_with_plugin_id() {
    let protocol = to_protocol_capability(
        &EncoderCapability::new("host", "disc.iso", ContentType::Disc)
            .supports_format(Format::Iso)
            .with_priority(7),
    );
    let capability = to_encoder_capability("plugin.example", &protocol);
    assert_eq!(capability.plugin_id, "plugin.example");
    assert_eq!(capability.capability_id, "disc.iso");
    assert_eq!(capability.content_type, ContentType::Disc);
    assert!(capability.formats.contains(&Format::Iso));
    assert_eq!(capability.priority, 7);
}
