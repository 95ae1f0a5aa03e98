//! The built-in encoder: passes single sources through and renders M3U playlists.
use vstd::prelude::*;

use crate::model::error::IoError;
use crate::output::capabilities::{ContentType, EncoderCapability, Format};
use crate::output::encode::{refuses_sets, single_file_refusal, MaterializedNamedArtifact, spec_lookup, MaterializationContext, MaterializedArtifact, OutputEncoder};
use crate::output::plan::{ArtifactReference, ArtifactRequest, GeneratedArtifact, PlannedArtifactKind, PlaylistArtifact, SourceArtifact};
use crate::text::{concat3, str_eq};

verus! {

/// The M3U text for the given entry names: each name followed by a newline
/// (a lone newline for no names).
pub open spec fn spec_playlist_text(names: Seq<Seq<char>>) -> Seq<char>
    decreases names.len(),
{
    if names.len() == 0 {
        seq!['\n']
    } else if names.len() == 1 {
        names[0] + seq!['\n']
    } else {
        spec_playlist_text(names.drop_last()) + names.last() + seq!['\n']
    }
}

/// Whether every playlist entry has a name in the context.
pub open spec fn all_named(entries: Seq<ArtifactReference>, context: MaterializationContext) -> bool {
    forall|i: int| 0 <= i < entries.len() ==> (spec_lookup(context.artifact_names@, (#[trigger] entries[i]).artifact_id.0@) is Some)
}

/// The names of the playlist entries, in order.
pub open spec fn entry_names(entries: Seq<ArtifactReference>, context: MaterializationContext) -> Seq<Seq<char>> {
    entries.map_values(|e: ArtifactReference| spec_lookup(context.artifact_names@, e.artifact_id.0@)->0)
}

/// The capability ids under which the basic encoder passes a single source through.
pub open spec fn is_passthrough_id(id: Seq<char>) -> bool {
    id == "bytes.bin"@ || id == "text.txt"@ || id == "rom.bin"@ || id == "disc.bin"@
}

/// Whether `e` reports the first playlist entry the context does not name.
pub open spec fn unknown_artifact_error(entries: Seq<ArtifactReference>, context: MaterializationContext, e: IoError) -> bool {
    exists|k: int| 0 <= k < entries.len() && all_named(entries.take(k), context)
        && spec_lookup(context.artifact_names@, (#[trigger] entries[k]).artifact_id.0@) is None
        && e.kind == std::io::ErrorKind::InvalidData
        && e.message@ == "playlist references unknown artifact '"@ + entries[k].artifact_id.0@ + "'"@
}

pub struct BasicEncoder;

impl BasicEncoder {
    pub fn new() -> (r: Self) {
        BasicEncoder
    }

    fn materialize_source_backed(&self, artifact: &SourceArtifact) -> (r: Result<MaterializedArtifact, IoError>)
        ensures
            artifact.inputs@.len() == 1 ==> r == Ok::<MaterializedArtifact, IoError>(MaterializedArtifact::SourceBacked {
                source: artifact.inputs@[0].source,
                size: artifact.inputs@[0].size,
            }),
            artifact.inputs@.len() != 1 ==> (r matches Err(e) && e.kind == std::io::ErrorKind::Unsupported),
    {
        if artifact.inputs.len() == 1 {
            let input = &artifact.inputs[0];
            Ok(MaterializedArtifact::SourceBacked { source: input.source.clone(), size: input.size })
        } else {
            Err(IoError::new(
                std::io::ErrorKind::Unsupported,
                String::from_str("basic encoder does not support multi-source source-backed artifacts"),
            ))
        }
    }

    fn materialize_playlist(&self, playlist: &PlaylistArtifact, context: &MaterializationContext) -> (r: Result<MaterializedArtifact, IoError>)
        ensures
            all_named(playlist.entries@, *context) ==> (r matches Ok(MaterializedArtifact::Inline(bytes))
                && bytes@ == vstd::utf8::encode_utf8(spec_playlist_text(entry_names(playlist.entries@, *context)))),
            !all_named(playlist.entries@, *context) ==> (r matches Err(e) && unknown_artifact_error(playlist.entries@, *context, e)),
    {
        let mut text = String::new();
        let mut i: usize = 0;
        while i < playlist.entries.len()
            invariant
                i <= playlist.entries@.len(),
                all_named(playlist.entries@.take(i as int), *context),
                i > 0 ==> text@ == spec_playlist_text(entry_names(playlist.entries@.take(i as int), *context)),
                i == 0 ==> text@ == Seq::<char>::empty(),
            decreases playlist.entries@.len() - i,
        {
            let entry = &playlist.entries[i];
            match context.artifact_names.get(&entry.artifact_id) {
                Some(name) => {
                    let ghost before = text@;
                    text.append(name.as_str());
                    crate::text::push_char(&mut text, '\n');
                    proof {
                        let prev = entry_names(playlist.entries@.take(i as int), *context);
                        let next = entry_names(playlist.entries@.take(i + 1), *context);
                        assert(next.drop_last() =~= prev);
                        assert(next.last() == name@);
                        if i == 0 {
                            assert(text@ =~= next[0] + seq!['\n']);
                        } else {
                            assert(text@ =~= spec_playlist_text(prev) + next.last() + seq!['\n']);
                        }
                        assert forall|j: int| 0 <= j < i + 1 implies (spec_lookup(context.artifact_names@, (#[trigger] playlist.entries@.take(i + 1)[j]).artifact_id.0@) is Some) by {
                            if j < i {
                                assert(playlist.entries@.take(i + 1)[j] == playlist.entries@.take(i as int)[j]);
                            }
                        }
                    }
                },
                None => {
                    proof {
                        assert(spec_lookup(context.artifact_names@, playlist.entries@[i as int].artifact_id.0@) is None);
                        reveal_strlit("playlist references unknown artifact '");
                        reveal_strlit("'");
                    }
                    let e = IoError::new(
                        std::io::ErrorKind::InvalidData,
                        concat3("playlist references unknown artifact '", entry.artifact_id.0.as_str(), "'"),
                    );
                    proof {
                        assert(unknown_artifact_error(playlist.entries@, *context, e));
                    }
                    return Err(e);
                },
            }
            i = i + 1;
        }
        assert(playlist.entries@.take(playlist.entries@.len() as int) =~= playlist.entries@);
        if playlist.entries.len() == 0 {
            crate::text::push_char(&mut text, '\n');
            assert(text@ =~= seq!['\n']);
        }
        let bytes = vstd::slice::slice_to_vec(text.as_str().as_bytes());
        Ok(MaterializedArtifact::Inline(bytes))
    }
}

impl Default for BasicEncoder {
    fn default() -> (r: Self) {
        BasicEncoder::new()
    }
}

impl OutputEncoder for BasicEncoder {
    open spec fn encoder_id(&self) -> Seq<char> {
        "basic"@
    }

    open spec fn offers(&self, r: Seq<EncoderCapability>) -> bool {
        &&& r.len() == 5
        &&& r[0].capability_id@ == "bytes.bin"@ && r[0].content_type == ContentType::Bytes && r[0].formats@ == seq![Format::Bin]
        &&& r[1].capability_id@ == "text.txt"@ && r[1].content_type == ContentType::Text && r[1].formats@ == seq![Format::Text]
        &&& r[2].capability_id@ == "rom.bin"@ && r[2].content_type == ContentType::Rom && r[2].formats@ == seq![Format::Bin]
        &&& r[3].capability_id@ == "disc.bin"@ && r[3].content_type == ContentType::Disc && r[3].formats@ == seq![Format::Bin]
        &&& r[4].capability_id@ == "playlist.m3u"@ && r[4].content_type == ContentType::Playlist && r[4].formats@ == seq![Format::M3u]
        &&& forall|i: int| 0 <= i < 5 ==> (#[trigger] r[i]).plugin_id@ == "basic"@ && r[i].features@.len() == 0 && r[i].priority == 0
    }

    open spec fn materializes(
        &self,
        file_name: Seq<char>,
        artifact: ArtifactRequest,
        selected_capability_id: Seq<char>,
        context: MaterializationContext,
        r: Result<MaterializedArtifact, IoError>,
    ) -> bool {
        &&& match artifact.kind {
            PlannedArtifactKind::SourceBacked(source) => if is_passthrough_id(selected_capability_id) {
                if source.inputs@.len() == 1 {
                    r == Ok::<MaterializedArtifact, IoError>(MaterializedArtifact::SourceBacked {
                        source: source.inputs@[0].source,
                        size: source.inputs@[0].size,
                    })
                } else {
                    r matches Err(e) && e.kind == std::io::ErrorKind::Unsupported
                }
            } else {
                r matches Err(e) && e.kind == std::io::ErrorKind::InvalidInput
            },
            PlannedArtifactKind::Generated(GeneratedArtifact::Playlist(playlist)) => if selected_capability_id == "playlist.m3u"@ {
                if all_named(playlist.entries@, context) {
                    r matches Ok(MaterializedArtifact::Inline(bytes))
                        && bytes@ == vstd::utf8::encode_utf8(spec_playlist_text(entry_names(playlist.entries@, context)))
                } else {
                    r matches Err(e) && unknown_artifact_error(playlist.entries@, context, e)
                }
            } else {
                r matches Err(e) && e.kind == std::io::ErrorKind::InvalidInput
            },
            PlannedArtifactKind::ContentBacked(_) => r matches Err(e) && e.kind == std::io::ErrorKind::InvalidInput,
        }
    }

    open spec fn materializes_set(
        &self,
        artifact_name: Seq<char>,
        artifact: ArtifactRequest,
        selected_capability_id: Seq<char>,
        context: MaterializationContext,
        r: Result<Vec<MaterializedNamedArtifact>, IoError>,
    ) -> bool {
        refuses_sets(selected_capability_id, r)
    }

    fn plugin_id(&self) -> (r: &str)
        ensures
            r@ == "basic"@,
    {
        "basic"
    }

    fn capabilities(&self) -> (r: Vec<EncoderCapability>)
    {
        let mut caps = Vec::new();
        caps.push(EncoderCapability::new(self.plugin_id(), "bytes.bin", ContentType::Bytes).supports_format(Format::Bin));
        caps.push(EncoderCapability::new(self.plugin_id(), "text.txt", ContentType::Text).supports_format(Format::Text));
        caps.push(EncoderCapability::new(self.plugin_id(), "rom.bin", ContentType::Rom).supports_format(Format::Bin));
        caps.push(EncoderCapability::new(self.plugin_id(), "disc.bin", ContentType::Disc).supports_format(Format::Bin));
        caps.push(EncoderCapability::new(self.plugin_id(), "playlist.m3u", ContentType::Playlist).supports_format(Format::M3u));
        caps
    }

    fn materialize(
        &self,
        file_name: &str,
        artifact: &ArtifactRequest,
        selected_capability_id: &str,
        context: &MaterializationContext,
    ) -> (r: Result<MaterializedArtifact, IoError>)
    {
        let passthrough = str_eq(selected_capability_id, "bytes.bin") || str_eq(selected_capability_id, "text.txt")
            || str_eq(selected_capability_id, "rom.bin") || str_eq(selected_capability_id, "disc.bin");
        match &artifact.kind {
            PlannedArtifactKind::SourceBacked(source) => {
                if passthrough {
                    return self.materialize_source_backed(source);
                }
            },
            PlannedArtifactKind::Generated(GeneratedArtifact::Playlist(playlist)) => {
                if str_eq(selected_capability_id, "playlist.m3u") {
                    return self.materialize_playlist(playlist, context);
                }
            },
            PlannedArtifactKind::ContentBacked(_) => {},
        }
        let mut message = concat3("basic encoder cannot materialize artifact '", artifact.id.0.as_str(), "' with capability '");
        message.append(selected_capability_id);
        message.append("'");
        Err(IoError::new(std::io::ErrorKind::InvalidInput, message))
    }

    fn materialize_set(
        &self,
        artifact_name: &str,
        artifact: &ArtifactRequest,
        selected_capability_id: &str,
        context: &MaterializationContext,
    ) -> (r: Result<Vec<MaterializedNamedArtifact>, IoError>) {
        single_file_refusal(selected_capability_id)
    }
}

} // verus!
