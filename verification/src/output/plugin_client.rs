//! Clients that reach an encoder plugin, and materialization through them.
use vstd::prelude::*;

use crate::output::encode::{MaterializationContext, MaterializedArtifact};
use crate::output::plan::ArtifactRequest;
use crate::output::plugin_protocol::{
    spec_result_view, spec_validate_manifest, spec_validate_request, validate_manifest, validate_materialization_request,
    MaterializationRequest, MaterializationResponse, PluginManifest, ProtocolError, ProtocolErrorView,
};
use crate::output::plugin_protocol_conversion::{content_backed_message, from_materialization_response, request_encodes, to_materialization_request};

verus! {

/// A connection to an encoder plugin: it answers with its manifest and materializes requests.
pub trait EncoderPluginClient {
    fn manifest(&self) -> Result<PluginManifest, ProtocolError>;

    fn materialize(&self, request: &MaterializationRequest) -> Result<MaterializationResponse, ProtocolError>;
}

/// A shared client is a client.
impl<T: EncoderPluginClient + ?Sized> EncoderPluginClient for std::sync::Arc<T> {
    fn manifest(&self) -> Result<PluginManifest, ProtocolError> {
        (**self).manifest()
    }

    fn materialize(&self, request: &MaterializationRequest) -> Result<MaterializationResponse, ProtocolError> {
        (**self).materialize(request)
    }
}

/// Why a request for a plugin with this manifest cannot be sent, if it cannot: an invalid
/// manifest, a content-backed artifact, or a request the manifest refuses.
pub open spec fn request_outcome_ok(
    manifest: PluginManifest,
    file_name: Seq<char>,
    artifact: ArtifactRequest,
    capability_id: Seq<char>,
    context: MaterializationContext,
    r: Result<MaterializationRequest, ProtocolError>,
) -> bool {
    match spec_validate_manifest(manifest) {
        Err(e) => r matches Err(x) && x@ == e,
        Ok(()) => if artifact.kind is ContentBacked {
            r matches Err(x) && x@ == (ProtocolErrorView::UnsupportedArtifactKind { message: content_backed_message() })
        } else {
            match r {
                Ok(request) => request_encodes(file_name, artifact, capability_id, context, request)
                    && spec_validate_request(request, manifest) == Ok::<(), ProtocolErrorView>(()),
                Err(x) => exists|request: MaterializationRequest| request_encodes(file_name, artifact, capability_id, context, request)
                    && #[trigger] spec_validate_request(request, manifest) == Err::<(), ProtocolErrorView>(x@),
            }
        },
    }
}

/// The request to send to a plugin with this manifest, checked against it.
pub fn prepare_plugin_request(
    manifest: &PluginManifest,
    file_name: &str,
    artifact: &ArtifactRequest,
    selected_capability_id: &str,
    context: &MaterializationContext,
) -> (r: Result<MaterializationRequest, ProtocolError>)
    ensures
        request_outcome_ok(*manifest, file_name@, *artifact, selected_capability_id@, *context, r),
{
    match validate_manifest(manifest) {
        Ok(()) => {},
        Err(e) => {
            return Err(e);
        },
    }
    let request = match to_materialization_request(file_name, artifact, selected_capability_id, context) {
        Ok(request) => request,
        Err(e) => {
            return Err(e);
        },
    };
    match validate_materialization_request(&request, manifest) {
        Ok(()) => Ok(request),
        Err(e) => {
            assert(spec_validate_request(request, *manifest) == Err::<(), ProtocolErrorView>(e@));
            Err(e)
        },
    }
}

/// Whether `a` is what a plugin's response describes: the same source and size, or the
/// same bytes.
pub open spec fn converted_response(response: MaterializationResponse, a: MaterializedArtifact) -> bool {
    match response {
        MaterializationResponse::SourceBacked(file) => a matches MaterializedArtifact::SourceBacked { source, size }
            && source.0@ == file.source@ && size == file.size,
        MaterializationResponse::Inline(file) => a matches MaterializedArtifact::Inline(bytes) && bytes == file.bytes,
    }
}

/// What sending a checked request to the client gives: the client's error as it came, or
/// the artifact its response describes.
pub open spec fn response_outcome<C: EncoderPluginClient>(
    client: C,
    request: MaterializationRequest,
    r: Result<MaterializedArtifact, ProtocolError>,
) -> bool {
    exists|answer: Result<MaterializationResponse, ProtocolError>| call_ensures(C::materialize, (&client, &request), answer)
        && #[trigger] answer_outcome(answer, r)
}

/// The artifact for a plugin's answer, or its error as it came.
pub open spec fn answer_outcome(
    answer: Result<MaterializationResponse, ProtocolError>,
    r: Result<MaterializedArtifact, ProtocolError>,
) -> bool {
    match answer {
        Err(e) => r == Err::<MaterializedArtifact, ProtocolError>(e),
        Ok(response) => r matches Ok(a) && converted_response(response, a),
    }
}

/// What materializing through a plugin gives once the manifest answer is in: the client's
/// error as it came; the error of preparing the request; or what the request is answered.
pub open spec fn via_plugin_outcome<C: EncoderPluginClient>(
    client: C,
    file_name: Seq<char>,
    artifact: ArtifactRequest,
    capability_id: Seq<char>,
    context: MaterializationContext,
    manifest_answer: Result<PluginManifest, ProtocolError>,
    r: Result<MaterializedArtifact, ProtocolError>,
) -> bool {
    match manifest_answer {
        Err(e) => r == Err::<MaterializedArtifact, ProtocolError>(e),
        Ok(m) => exists|prepared: Result<MaterializationRequest, ProtocolError>|
            #[trigger] request_outcome_ok(m, file_name, artifact, capability_id, context, prepared) && match prepared {
                Err(e) => r == Err::<MaterializedArtifact, ProtocolError>(e),
                Ok(request) => response_outcome(client, request, r),
            },
    }
}

/// Materializes an artifact through a plugin: asks for its manifest, checks it, sends the
/// checked request and converts the response. A client error is returned as it is.
pub fn materialize_via_plugin<C: EncoderPluginClient>(
    client: &C,
    file_name: &str,
    artifact: &ArtifactRequest,
    selected_capability_id: &str,
    context: &MaterializationContext,
) -> (r: Result<MaterializedArtifact, ProtocolError>)
    ensures
        r is Ok ==> !(artifact.kind is ContentBacked),
        exists|answer: Result<PluginManifest, ProtocolError>| call_ensures(C::manifest, (client,), answer)
            && #[trigger] via_plugin_outcome(*client, file_name@, *artifact, selected_capability_id@, *context, answer, r),
{
    let manifest_answer = client.manifest();
    let ghost first = manifest_answer;
    let manifest = match manifest_answer {
        Ok(m) => m,
        Err(e) => {
            let r = Err(e);
            assert(via_plugin_outcome(*client, file_name@, *artifact, selected_capability_id@, *context, first, r));
            return r;
        },
    };
    let prepared = prepare_plugin_request(&manifest, file_name, artifact, selected_capability_id, context);
    let ghost prep = prepared;
    let request = match prepared {
        Ok(request) => request,
        Err(e) => {
            let r = Err(e);
            assert(request_outcome_ok(manifest, file_name@, *artifact, selected_capability_id@, *context, prep));
            assert(via_plugin_outcome(*client, file_name@, *artifact, selected_capability_id@, *context, first, r));
            return r;
        },
    };
    let answer = client.materialize(&request);
    let ghost sent = answer;
    let response = match answer {
        Ok(response) => response,
        Err(e) => {
            let r = Err(e);
            assert(answer_outcome(sent, r));
            assert(response_outcome(*client, request, r));
            assert(request_outcome_ok(manifest, file_name@, *artifact, selected_capability_id@, *context, prep));
            assert(via_plugin_outcome(*client, file_name@, *artifact, selected_capability_id@, *context, first, r));
            return r;
        },
    };
    let r = from_materialization_response(response);
    assert(answer_outcome(sent, r));
    assert(response_outcome(*client, request, r));
    assert(request_outcome_ok(manifest, file_name@, *artifact, selected_capability_id@, *context, prep));
    assert(via_plugin_outcome(*client, file_name@, *artifact, selected_capability_id@, *context, first, r));
    r
}

} // verus!
