//! The decisions of running an encoder plugin as a subprocess: when to retry a spawn,
//! how an exit is judged, and what the plugin's response means. The process itself is
//! run by the caller, which hands each outcome to these functions.
use vstd::prelude::*;

use crate::output::plugin_protocol::{
    spec_result_view, spec_validate_manifest, validate_manifest, MaterializationRequest, MaterializationResponse,
    PluginManifest, PluginRequest, PluginResponse, ProtocolError, ProtocolErrorView,
};
use crate::output::plugin_runtime_error::{spec_runtime_message, PluginRuntimeError};
use crate::text::{concat2, concat3, spec_trim, trim, IntoText};

verus! {

/// How many times a busy executable is tried before the spawn is given up.
pub open spec fn spawn_attempts() -> u32 {
    5
}

/// What one attempt to start the plugin process gave.
pub enum SpawnOutcome {
    /// The process is running.
    Spawned,
    /// The executable was busy (being written); the attempt may be repeated.
    Busy { message: String },
    /// The process could not be started.
    Failed { message: String },
}

/// What to do after an attempt to start the plugin process.
pub enum SpawnStep {
    /// Talk to the running process.
    Proceed,
    /// Pause briefly, then try again.
    Retry,
    /// Give up with this error.
    Stop(PluginRuntimeError),
}

/// A response rendered by its `Debug` form.
#[verifier::external_body]
fn response_text(response: &PluginResponse) -> String {
    format!("{response:?}")
}

/// Runs an encoder plugin executable, one request per process.
#[derive(Debug)]
pub struct SubprocessEncoderPluginClient {
    executable: String,
}

impl Clone for SubprocessEncoderPluginClient {
    fn clone(&self) -> (r: Self)
        ensures
            r.executable_path() == self.executable_path(),
    {
        SubprocessEncoderPluginClient { executable: self.executable.clone() }
    }
}

impl SubprocessEncoderPluginClient {
    pub fn new<S: IntoText>(executable: S) -> (r: Self)
        ensures
            r.executable_path() == executable.text(),
    {
        SubprocessEncoderPluginClient { executable: executable.into_text() }
    }

    pub closed spec fn executable_path(&self) -> Seq<char> {
        self.executable@
    }

    /// The path of the plugin executable.
    pub fn executable(&self) -> (r: &str)
        ensures
            r@ == self.executable_path(),
    {
        self.executable.as_str()
    }

    /// The error for an executable that does not exist.
    pub fn not_found(&self) -> (r: PluginRuntimeError)
        ensures
            r matches PluginRuntimeError::ExecutableNotFound { path } && path@ == self.executable_path(),
    {
        PluginRuntimeError::ExecutableNotFound { path: self.executable.clone() }
    }

    /// The error for a failed exchange with the process.
    pub fn io_error(&self, message: &str) -> (r: PluginRuntimeError)
        ensures
            r matches PluginRuntimeError::Io { path, message: m } && path@ == self.executable_path() && m@ == message@,
    {
        PluginRuntimeError::Io { path: self.executable.clone(), message: message.into_text() }
    }

    /// The error for a response that is not valid JSON.
    pub fn invalid_json(&self, message: &str) -> (r: PluginRuntimeError)
        ensures
            r matches PluginRuntimeError::InvalidJson { path, message: m } && path@ == self.executable_path() && m@ == message@,
    {
        PluginRuntimeError::InvalidJson { path: self.executable.clone(), message: message.into_text() }
    }

    /// What to do after attempt `attempt` (counted from 0) to start the process: proceed
    /// once it runs, retry a busy executable until the attempts are used up, and stop on
    /// any other failure or after the last busy attempt.
    pub fn spawn_step(&self, attempt: u32, outcome: SpawnOutcome) -> (r: SpawnStep)
        ensures
            match outcome {
                SpawnOutcome::Spawned => r is Proceed,
                SpawnOutcome::Busy { message } => if attempt + 1 < spawn_attempts() {
                    r is Retry
                } else {
                    r matches SpawnStep::Stop(PluginRuntimeError::SpawnFailed { path, message: m })
                        && path@ == self.executable_path() && m@ == message@
                },
                SpawnOutcome::Failed { message } => r matches SpawnStep::Stop(PluginRuntimeError::SpawnFailed { path, message: m })
                    && path@ == self.executable_path() && m@ == message@,
            },
    {
        match outcome {
            SpawnOutcome::Spawned => SpawnStep::Proceed,
            SpawnOutcome::Busy { message } => {
                if attempt < 4 {
                    SpawnStep::Retry
                } else {
                    SpawnStep::Stop(PluginRuntimeError::SpawnFailed { path: self.executable.clone(), message })
                }
            },
            SpawnOutcome::Failed { message } => SpawnStep::Stop(PluginRuntimeError::SpawnFailed {
                path: self.executable.clone(),
                message,
            }),
        }
    }

    /// How the process's exit is judged: success, or a non-zero exit reporting its code
    /// (-1 when there is none) and its trimmed error output.
    pub fn check_exit(&self, success: bool, code: Option<i32>, stderr: &str) -> (r: Result<(), PluginRuntimeError>)
        ensures
            success ==> r is Ok,
            !success ==> (r matches Err(PluginRuntimeError::NonZeroExit { path, status, stderr: e })
                && path@ == self.executable_path()
                && status == (match code { Some(c) => c, None => -1i32 })
                && e@ == spec_trim(stderr@)),
    {
        if success {
            return Ok(());
        }
        let status = match code {
            Some(c) => c,
            None => -1,
        };
        Err(PluginRuntimeError::NonZeroExit { path: self.executable.clone(), status, stderr: trim(stderr) })
    }

    /// The manifest a response to a manifest request carries, once valid.
    pub fn manifest_from_response(&self, response: PluginResponse) -> (r: Result<PluginManifest, PluginRuntimeError>)
        ensures
            match response {
                PluginResponse::Manifest { manifest } => match spec_validate_manifest(manifest) {
                    Ok(()) => r == Ok::<PluginManifest, PluginRuntimeError>(manifest),
                    Err(e) => r matches Err(PluginRuntimeError::Protocol { error }) && error@ == e,
                },
                PluginResponse::Error { error } => r matches Err(PluginRuntimeError::Protocol { error: p })
                    && p@ == (ProtocolErrorView::InternalPluginError {
                        message: "plugin error ["@ + error.code@ + "]: "@ + error.message@,
                    }),
                PluginResponse::Materialized { .. } => r matches Err(PluginRuntimeError::UnexpectedResponse { path, .. })
                    && path@ == self.executable_path(),
            },
    {
        match response {
            PluginResponse::Manifest { manifest } => {
                match validate_manifest(&manifest) {
                    Ok(()) => Ok(manifest),
                    Err(error) => Err(PluginRuntimeError::Protocol { error }),
                }
            },
            PluginResponse::Error { error } => {
                let mut message = concat3("plugin error [", error.code.as_str(), "]: ");
                message.append(error.message.as_str());
                Err(PluginRuntimeError::Protocol { error: ProtocolError::InternalPluginError { message } })
            },
            other => {
                let text = response_text(&other);
                Err(PluginRuntimeError::UnexpectedResponse {
                    path: self.executable.clone(),
                    message: concat2("expected manifest response, got ", text.as_str()),
                })
            },
        }
    }

    /// The materialization a response to a materialize request carries.
    pub fn materialized_from_response(&self, response: PluginResponse) -> (r: Result<MaterializationResponse, PluginRuntimeError>)
        ensures
            match response {
                PluginResponse::Materialized { response: m } => r == Ok::<MaterializationResponse, PluginRuntimeError>(m),
                PluginResponse::Error { error } => r matches Err(PluginRuntimeError::Protocol { error: p })
                    && p@ == (ProtocolErrorView::MaterializationFailed {
                        message: "plugin error ["@ + error.code@ + "]: "@ + error.message@,
                    }),
                PluginResponse::Manifest { .. } => r matches Err(PluginRuntimeError::UnexpectedResponse { path, .. })
                    && path@ == self.executable_path(),
            },
    {
        match response {
            PluginResponse::Materialized { response } => Ok(response),
            PluginResponse::Error { error } => {
                let mut message = concat3("plugin error [", error.code.as_str(), "]: ");
                message.append(error.message.as_str());
                Err(PluginRuntimeError::Protocol { error: ProtocolError::MaterializationFailed { message } })
            },
            other => {
                let text = response_text(&other);
                Err(PluginRuntimeError::UnexpectedResponse {
                    path: self.executable.clone(),
                    message: concat2("expected materialized response, got ", text.as_str()),
                })
            },
        }
    }

    /// The request that asks a plugin to materialize.
    pub fn materialize_request(&self, request: MaterializationRequest) -> (r: PluginRequest)
        ensures
            r matches PluginRequest::Materialize { request: b } && *b == request,
    {
        PluginRequest::Materialize { request: Box::new(request) }
    }
}

} // verus!
