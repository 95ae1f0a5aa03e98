use std::sync::Arc;

use retromount::model::content::{DiscMedia, LogicalDisc};
use retromount::model::reader::ReaderHandle;
use retromount::model::source::SourceRef;
use retromount::model::vfs::{FileBacking, VfsNode};
use retromount::output::basic_encoder::BasicEncoder;
use retromount::output::capabilities::{CapabilityFeature, CapabilityRequirements, ContentType, Format};
use retromount::output::encode::OutputEncoder;
use retromount::output::encoder_registry::{default_encoder_registry, BoxedEncoder, BuiltinEncoderFactory, EncoderRegistry};
use retromount::output::materialize::{
    materialize_plan, materialize_plan_with_encoders, materialize_plan_with_plugins,
};
use retromount::output::plan::{
    ArtifactId, ArtifactReference, ArtifactRequest, ContentArtifact, GeneratedArtifact,
    PlanDirectory, PlanEntry, PlanFile, PlannedArtifactKind, PlaylistArtifact, PresentationPlan,
    SourceArtifact, SourceArtifactInput,
};
use retromount::output::plugin_client::EncoderPluginClient;
use retromount::output::plugin_protocol::{
    encoder_plugin_protocol_v1, MaterializationRequest, MaterializationResponse, PluginManifest,
    ProtocolContentType, ProtocolEncoderCapability, ProtocolError, ProtocolFormat,
    ProtocolMaterializedSourceFile,
};
use retromount::output::plugin_registry::PluginRegistry;

#[derive(Clone)]
struct TestPluginClient;

impl EncoderPluginClient for TestPluginClient {
    fn manifest(&self) -> Result<PluginManifest, ProtocolError> {
        Ok(plugin_manifest())
    }

    fn materialize(
        &self,
        _request: &MaterializationRequest,
    ) -> Result<MaterializationResponse, ProtocolError> {
        Ok(MaterializationResponse::SourceBacked(ProtocolMaterializedSourceFile {
            source: "file:/plugins/game.iso".to_string(),
            size: 8192,
        }))
    }
}

fn plugin_manifest() -> PluginManifest {
    PluginManifest {
        plugin_id: "plugin.test".to_string(),
        plugin_version: "0.1.0".to_string(),
        protocol_version: encoder_plugin_protocol_v1(),
        display_name: None,
        description: None,
        capabilities: vec![ProtocolEncoderCapability::new("disc.iso", ProtocolContentType::Disc)
            .supports_format(ProtocolFormat::Iso)],
    }
}

fn game_bin_plan() -> PresentationPlan {
    PresentationPlan::new(vec![PlanEntry::File(PlanFile::new(
        "game.bin",
        ArtifactRequest::new(
            ArtifactId::new("game"),
            PlannedArtifactKind::SourceBacked(SourceArtifact::single(
                SourceRef::new("file:/roms/game.bin"),
                1024,
            )),
            CapabilityRequirements::new(ContentType::Rom).with_format(Format::Bin),
        ),
    ))])
}

#[test]
fn materializes_source_backed_file() {
    let plan = game_bin_plan();

    let root = materialize_plan(&plan).unwrap();

    assert_eq!(root.children().len(), 1);
    assert_eq!(root.children()[0].name(), "game.bin");
}

#[test]
fn materializes_playlist_file_from_referenced_artifact_names() {
    let disc1_id = ArtifactId::new("disc1");
    let disc2_id = ArtifactId::new("disc2");

    let plan = PresentationPlan::new(vec![
        PlanEntry::File(PlanFile::new(
            "Game (Disc 1).cue",
            ArtifactRequest::new(
                disc1_id.clone(),
                PlannedArtifactKind::SourceBacked(SourceArtifact::single(
                    SourceRef::new("file:/roms/disc1.cue"),
                    100,
                )),
                CapabilityRequirements::new(ContentType::Disc).with_format(Format::Bin),
            ),
        )),
        PlanEntry::File(PlanFile::new(
            "Game (Disc 2).cue",
            ArtifactRequest::new(
                disc2_id.clone(),
                PlannedArtifactKind::SourceBacked(SourceArtifact::single(
                    SourceRef::new("file:/roms/disc2.cue"),
                    200,
                )),
                CapabilityRequirements::new(ContentType::Disc).with_format(Format::Bin),
            ),
        )),
        PlanEntry::File(PlanFile::new(
            "Game.m3u",
            ArtifactRequest::new(
                ArtifactId::new("playlist"),
                PlannedArtifactKind::Generated(GeneratedArtifact::Playlist(PlaylistArtifact::new(
                    vec![
                        ArtifactReference::new(disc1_id),
                        ArtifactReference::new(disc2_id),
                    ],
                ))),
                CapabilityRequirements::new(ContentType::Playlist).with_format(Format::M3u),
            ),
        )),
    ]);

    let root = materialize_plan(&plan).unwrap();

    let playlist = match &root.children()[2] {
        VfsNode::File(file) => file,
        other => panic!("expected file, got {other:?}"),
    };

    match &playlist.backing {
        FileBacking::Inline(contents) => {
            assert_eq!(contents, b"Game (Disc 1).cue\nGame (Disc 2).cue\n");
        }
        other => panic!("expected inline backing, got {other:?}"),
    }
}

#[test]
fn materialize_rejects_multi_source_source_backed_artifact() {
    let plan = PresentationPlan::new(vec![PlanEntry::File(PlanFile::new(
        "merged.bin",
        ArtifactRequest::new(
            ArtifactId::new("merged"),
            PlannedArtifactKind::SourceBacked(SourceArtifact::multiple(vec![
                SourceArtifactInput {
                    source: SourceRef::new("file:/roms/part1.bin"),
                    size: 100,
                },
                SourceArtifactInput {
                    source: SourceRef::new("file:/roms/part2.bin"),
                    size: 200,
                },
            ])),
            CapabilityRequirements::new(ContentType::Rom).with_format(Format::Bin),
        ),
    ))]);

    let error = materialize_plan(&plan).unwrap_err();
    assert_eq!(error.kind(), std::io::ErrorKind::Unsupported);
}

#[test]
fn materializes_plan_with_explicit_encoder_set() {
    let plan = game_bin_plan();

    let encoders: Vec<BoxedEncoder> = vec![BoxedEncoder(Box::new(BasicEncoder::new()))];

    let root = materialize_plan_with_encoders(&plan, &encoders).unwrap();

    assert_eq!(root.children().len(), 1);
    assert_eq!(root.children()[0].name(), "game.bin");
}

#[test]
fn materializes_logical_dvd_as_live_random_access_iso() {
    let plan = PresentationPlan::new(vec![PlanEntry::File(PlanFile::new(
        "Game.iso",
        ArtifactRequest::new(
            ArtifactId::new("game"),
            PlannedArtifactKind::ContentBacked(ContentArtifact::logical_disc(LogicalDisc {
                media: DiscMedia::Dvd,
                sector_size: 2048,
                sector_count: 2,
                content: ReaderHandle::new("test:logical-dvd"),
            })),
            CapabilityRequirements::new(ContentType::Disc)
                .with_format(Format::Iso)
                .require_feature(CapabilityFeature::RandomAccess)
                .require_feature(CapabilityFeature::Lossless),
        ),
    ))]);

    let root = materialize_plan(&plan).unwrap();
    let file = root.find_file("Game.iso").unwrap();
    assert_eq!(file.size, 4096);
    assert_eq!(file.backing, FileBacking::Reader(ReaderHandle::new("test:logical-dvd")));
}

#[test]
fn materializes_plan_with_plugin_registry() {
    let plan = PresentationPlan::new(vec![PlanEntry::File(PlanFile::new(
        "Game.iso",
        ArtifactRequest::new(
            ArtifactId::new("game"),
            PlannedArtifactKind::SourceBacked(SourceArtifact::single(
                SourceRef::new("file:/roms/game.iso"),
                4096,
            )),
            CapabilityRequirements::new(ContentType::Disc).with_format(Format::Iso),
        ),
    ))]);

    let mut plugin_registry = PluginRegistry::new();
    let client: Arc<dyn EncoderPluginClient> = Arc::new(TestPluginClient);
    plugin_registry.register(client).unwrap();

    let root = materialize_plan_with_plugins(&plan, &plugin_registry).unwrap();

    assert_eq!(root.children().len(), 1);

    let file = match &root.children()[0] {
        VfsNode::File(file) => file,
        other => panic!("expected file, got {other:?}"),
    };

    match &file.backing {
        FileBacking::Source(source) => {
            assert_eq!(source, &SourceRef::new("file:/plugins/game.iso"));
            assert_eq!(file.size, 8192);
        }
        other => panic!("expected source-backed file, got {other:?}"),
    }
}

#[test]
fn materialized_tree_mirrors_plan_directories() {
    let plan = PresentationPlan::new(vec![PlanEntry::Directory(PlanDirectory::new(
        "roms",
        vec![PlanEntry::File(PlanFile::new(
            "game.bin",
            ArtifactRequest::new(
                ArtifactId::new("game"),
                PlannedArtifactKind::SourceBacked(SourceArtifact::single(
                    SourceRef::new("file:/roms/game.bin"),
                    1024,
                )),
                CapabilityRequirements::new(ContentType::Rom).with_format(Format::Bin),
            ),
        ))],
    ))]);

    let root = materialize_plan(&plan).unwrap();
    assert_eq!(root.name, "");
    let directory = root.find_directory("roms").unwrap();
    let file = directory.find_file("game.bin").unwrap();
    assert_eq!(file.size, 1024);
    assert_eq!(file.backing, FileBacking::Source(SourceRef::new("file:/roms/game.bin")));
}

#[test]
fn unmatched_requirements_fail_materialization() {
    let plan = PresentationPlan::new(vec![PlanEntry::File(PlanFile::new(
        "game.zip",
        ArtifactRequest::new(
            ArtifactId::new("game"),
            PlannedArtifactKind::SourceBacked(SourceArtifact::single(
                SourceRef::new("file:/roms/game.bin"),
                1024,
            )),
            CapabilityRequirements::new(ContentType::Rom).with_format(Format::Zip),
        ),
    ))]);
    assert!(materialize_plan(&plan).is_err());
}

#[test]
fn default_registry_holds_the_basic_encoder() {
    let registry = default_encoder_registry();
    assert_eq!(registry.names(), vec!["basic"]);
    assert_eq!(registry.all().len(), 1);
    assert_eq!(registry.all()[0].0.plugin_id(), "basic");
    assert_eq!(registry.get("basic").unwrap().0.plugin_id(), "basic");
    assert!(registry.get("missing").is_none());
}

#[test]
fn encoder_registry_keeps_the_latest_factory_under_a_name() {
    let mut registry = EncoderRegistry::new();
    registry.register("iso", BuiltinEncoderFactory::Basic);
    registry.register("iso", BuiltinEncoderFactory::LogicalDiscIso);
    registry.register("basic", BuiltinEncoderFactory::Basic);

    assert_eq!(registry.names(), vec!["basic", "iso"]);
    assert_eq!(registry.get("iso").unwrap().0.plugin_id(), "logical-disc-iso");
    assert_eq!(registry.get("basic").unwrap().0.plugin_id(), "basic");
    let all = registry.all();
    assert_eq!(all.len(), 2);
    assert_eq!(all[0].0.plugin_id(), "basic");
    assert_eq!(all[1].0.plugin_id(), "logical-disc-iso");
}

#[test]
fn plans_of_directories_only_need_no_encoder() {
    let plan = PresentationPlan::new(vec![PlanEntry::Directory(PlanDirectory::new(
        "ps1",
        vec![PlanEntry::Directory(PlanDirectory::new("empty", vec![]))],
    ))]);
    let encoders: Vec<BoxedEncoder> = Vec::new();
    let root = materialize_plan_with_encoders(&plan, &encoders).unwrap();
    assert_eq!(root.children().len(), 1);
    let registry: PluginRegistry<TestPluginClient> = PluginRegistry::new();
    assert!(materialize_plan_with_plugins(&plan, &registry).is_ok());
}

#[test]
fn files_fail_as_unsupported_without_encoders() {
    let encoders: Vec<BoxedEncoder> = Vec::new();
    let error = materialize_plan_with_encoders(&game_bin_plan(), &encoders).unwrap_err();
    assert_eq!(error.kind, std::io::ErrorKind::Unsupported);
}

#[test]
fn single_file_encoders_refuse_artifact_sets() {
    let encoder = BasicEncoder::new();
    let request = ArtifactRequest::new(
        ArtifactId::new("game"),
        PlannedArtifactKind::SourceBacked(SourceArtifact::single(SourceRef::new("file:/roms/game.bin"), 1024)),
        CapabilityRequirements::new(ContentType::Rom).with_format(Format::Bin),
    );
    let context = retromount::output::encode::MaterializationContext {
        artifact_names: retromount::output::encode::ArtifactNames::new(),
    };
    let error = match encoder.materialize_set("game", &request, "rom.bin", &context) {
        Ok(_) => panic!("expected the single-file refusal"),
        Err(error) => error,
    };
    assert_eq!(error.kind, std::io::ErrorKind::Unsupported);
    assert_eq!(error.message, "capability 'rom.bin' produces a single file");
}
