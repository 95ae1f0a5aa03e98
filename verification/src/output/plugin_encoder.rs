//! An output encoder backed by an encoder plugin.
use vstd::prelude::*;

use crate::model::error::IoError;
use crate::output::capabilities::EncoderCapability;
use crate::output::encode::{refuses_sets, single_file_refusal, MaterializedNamedArtifact, MaterializationContext, MaterializedArtifact, OutputEncoder};
use crate::output::plan::ArtifactRequest;
use crate::output::plugin_client::{answer_outcome, response_outcome, EncoderPluginClient};
use crate::output::plugin_protocol::{spec_result_view, spec_validate_manifest, validate_manifest, MaterializationRequest, PluginManifest, ProtocolError};
use crate::output::plugin_protocol_conversion::{
    capability_corresponds, from_materialization_response, request_encodes, to_encoder_capability, to_materialization_request,
};

verus! {

/// A protocol error rendered by its `Debug` form.
#[verifier::external_body]
pub(crate) fn protocol_error_text(error: &ProtocolError) -> String {
    format!("{error:?}")
}

/// A protocol error as an I/O error of kind `Other`.
fn to_io_error(error: ProtocolError) -> (r: IoError)
    ensures
        r.kind == std::io::ErrorKind::Other,
{
    IoError::new(std::io::ErrorKind::Other, protocol_error_text(&error))
}

/// Encodes through a plugin client, offering the capabilities its manifest declares.
pub struct PluginBackedEncoder<C: EncoderPluginClient> {
    pub plugin_id: String,
    pub capabilities: Vec<EncoderCapability>,
    pub client: C,
}

/// Whether `encoder` is what a valid `manifest` makes of `client`: the manifest's plugin id,
/// and each declared capability attributed to that plugin.
pub open spec fn encoder_for_manifest<C: EncoderPluginClient>(encoder: PluginBackedEncoder<C>, manifest: PluginManifest, client: C) -> bool {
    &&& spec_validate_manifest(manifest) is Ok
    &&& encoder.plugin_id@ == manifest.plugin_id@
    &&& encoder.client == client
    &&& encoder.capabilities@.len() == manifest.capabilities@.len()
    &&& forall|i: int| 0 <= i < manifest.capabilities@.len() ==> (#[trigger] encoder.capabilities@[i]).plugin_id@
        == manifest.plugin_id@ && capability_corresponds(encoder.capabilities@[i], manifest.capabilities@[i])
}

/// What building from a manifest answer gives: the client's error as it came, the
/// manifest's validation error, or an encoder that follows the valid manifest.
pub open spec fn manifest_outcome<C: EncoderPluginClient>(
    answer: Result<PluginManifest, ProtocolError>,
    client: C,
    r: Result<PluginBackedEncoder<C>, ProtocolError>,
) -> bool {
    match answer {
        Err(e) => r == Err::<PluginBackedEncoder<C>, ProtocolError>(e),
        Ok(m) => match spec_validate_manifest(m) {
            Err(e) => r matches Err(x) && x@ == e,
            Ok(()) => r matches Ok(encoder) && encoder_for_manifest(encoder, m, client),
        },
    }
}

impl<C: EncoderPluginClient> PluginBackedEncoder<C> {
    pub fn new(plugin_id: String, capabilities: Vec<EncoderCapability>, client: C) -> (r: Self)
        ensures
            r.plugin_id == plugin_id,
            r.capabilities == capabilities,
            r.client == client,
    {
        PluginBackedEncoder { plugin_id, capabilities, client }
    }

    /// The encoder for a plugin with this manifest: its id, and each declared capability
    /// attributed to it; an invalid manifest is refused.
    pub fn from_manifest(manifest: &PluginManifest, client: C) -> (r: Result<Self, ProtocolError>)
        ensures
            match spec_validate_manifest(*manifest) {
                Err(e) => r matches Err(x) && x@ == e,
                Ok(()) => r matches Ok(encoder) && {
                    &&& encoder.plugin_id@ == manifest.plugin_id@
                    &&& encoder.client == client
                    &&& encoder.capabilities@.len() == manifest.capabilities@.len()
                    &&& forall|i: int| 0 <= i < manifest.capabilities@.len() ==> (#[trigger] encoder.capabilities@[i]).plugin_id@
                        == manifest.plugin_id@ && capability_corresponds(encoder.capabilities@[i], manifest.capabilities@[i])
                },
            },
    {
        match validate_manifest(manifest) {
            Ok(()) => {},
            Err(e) => {
                return Err(e);
            },
        }
        let mut capabilities: Vec<EncoderCapability> = Vec::new();
        let mut i: usize = 0;
        while i < manifest.capabilities.len()
            invariant
                i <= manifest.capabilities@.len(),
                capabilities@.len() == i,
                forall|j: int| 0 <= j < i ==> (#[trigger] capabilities@[j]).plugin_id@ == manifest.plugin_id@
                    && capability_corresponds(capabilities@[j], manifest.capabilities@[j]),
            decreases manifest.capabilities@.len() - i,
        {
            capabilities.push(to_encoder_capability(manifest.plugin_id.as_str(), &manifest.capabilities[i]));
            i = i + 1;
        }
        Ok(PluginBackedEncoder { plugin_id: manifest.plugin_id.clone(), capabilities, client })
    }

    /// The encoder for the plugin the client reaches, built from the manifest it answers with.
    /// The manifest comes from the client, so whether one is built is the client's answer;
    /// a built encoder wraps this client and follows a valid manifest.
    pub fn from_client(client: C) -> (r: Result<Self, ProtocolError>)
        ensures
            r matches Ok(encoder) ==> exists|manifest: PluginManifest| #[trigger] encoder_for_manifest(encoder, manifest, client),
            exists|answer: Result<PluginManifest, ProtocolError>| call_ensures(C::manifest, (&client,), answer)
                && #[trigger] manifest_outcome(answer, client, r),
    {
        let answer = client.manifest();
        let ghost first = answer;
        let manifest = match answer {
            Ok(m) => m,
            Err(e) => {
                let r = Err(e);
                assert(manifest_outcome(first, client, r));
                return r;
            },
        };
        let r = PluginBackedEncoder::from_manifest(&manifest, client);
        proof {
            if r is Ok {
                assert(encoder_for_manifest(r->Ok_0, manifest, client));
            }
            assert(manifest_outcome(first, client, r));
        }
        r
    }
}

impl<C: EncoderPluginClient> OutputEncoder for PluginBackedEncoder<C> {
    open spec fn encoder_id(&self) -> Seq<char> {
        self.plugin_id@
    }

    open spec fn offers(&self, r: Seq<EncoderCapability>) -> bool {
        &&& r.len() == self.capabilities@.len()
        &&& forall|i: int| 0 <= i < r.len() ==> (#[trigger] r[i]).same(self.capabilities@[i])
    }

    open spec fn materializes(
        &self,
        file_name: Seq<char>,
        artifact: ArtifactRequest,
        selected_capability_id: Seq<char>,
        context: MaterializationContext,
        r: Result<MaterializedArtifact, IoError>,
    ) -> bool {
        &&& artifact.kind is ContentBacked ==> (r matches Err(e) && e.kind == std::io::ErrorKind::Other)
        &&& r matches Err(e) ==> e.kind == std::io::ErrorKind::Other
        &&& r matches Ok(a) ==> exists|request: MaterializationRequest|
            #[trigger] request_encodes(file_name, artifact, selected_capability_id, context, request)
            && response_outcome(self.client, request, Ok::<MaterializedArtifact, ProtocolError>(a))
    }

    open spec fn materializes_set(
        &self,
        artifact_name: Seq<char>,
        artifact: ArtifactRequest,
        selected_capability_id: Seq<char>,
        context: MaterializationContext,
        r: Result<Vec<MaterializedNamedArtifact>, IoError>,
    ) -> bool {
        refuses_sets(selected_capability_id, r)
    }

    fn plugin_id(&self) -> (r: &str)
        ensures
            r@ == self.plugin_id@,
    {
        self.plugin_id.as_str()
    }

    fn capabilities(&self) -> (r: Vec<EncoderCapability>)
    {
        let mut out: Vec<EncoderCapability> = Vec::new();
        let mut i: usize = 0;
        while i < self.capabilities.len()
            invariant
                i <= self.capabilities@.len(),
                out@.len() == i,
                forall|j: int| 0 <= j < i ==> (#[trigger] out@[j]).same(self.capabilities@[j]),
            decreases self.capabilities@.len() - i,
        {
            out.push(self.capabilities[i].clone());
            i = i + 1;
        }
        out
    }

    /// Sends the artifact to the plugin; protocol errors become I/O errors of kind `Other`.
    fn materialize(
        &self,
        file_name: &str,
        artifact: &ArtifactRequest,
        selected_capability_id: &str,
        context: &MaterializationContext,
    ) -> (r: Result<MaterializedArtifact, IoError>)
    {
        let request = match to_materialization_request(file_name, artifact, selected_capability_id, context) {
            Ok(request) => request,
            Err(e) => {
                return Err(to_io_error(e));
            },
        };
        let answer = self.client.materialize(&request);
        let ghost sent = answer;
        let response = match answer {
            Ok(response) => response,
            Err(e) => {
                return Err(to_io_error(e));
            },
        };
        let converted = from_materialization_response(response);
        proof {
            assert(answer_outcome(sent, converted));
            assert(response_outcome(self.client, request, converted));
        }
        match converted {
            Ok(a) => Ok(a),
            Err(e) => Err(to_io_error(e)),
        }
    }

    fn materialize_set(
        &self,
        artifact_name: &str,
        artifact: &ArtifactRequest,
        selected_capability_id: &str,
        context: &MaterializationContext,
    ) -> (r: Result<Vec<MaterializedNamedArtifact>, IoError>) {
        single_file_refusal(selected_capability_id)
    }
}

} // verus!
