//! Failures of running an encoder plugin as a subprocess.
use vstd::prelude::*;

use crate::output::plugin_protocol::{ProtocolError, ProtocolErrorView};
use crate::text::{concat2, concat3, decimal, decimal_string};

verus! {

#[derive(Debug)]
pub enum PluginRuntimeError {
    ExecutableNotFound { path: String },
    SpawnFailed { path: String, message: String },
    Io { path: String, message: String },
    NonZeroExit { path: String, status: i32, stderr: String },
    InvalidJson { path: String, message: String },
    UnexpectedResponse { path: String, message: String },
    Protocol { error: ProtocolError },
}

/// Decimal rendering of a signed number.
pub open spec fn signed_decimal(n: i32) -> Seq<char> {
    if n < 0 { seq!['-'] + decimal((-n) as nat) } else { decimal(n as nat) }
}

/// The text a runtime error describes itself with.
pub open spec fn spec_runtime_message(e: PluginRuntimeError) -> Seq<char> {
    match e {
        PluginRuntimeError::ExecutableNotFound { path } => "plugin executable not found: "@ + path@,
        PluginRuntimeError::SpawnFailed { path, message } => "failed to spawn plugin executable '"@ + path@ + "': "@ + message@,
        PluginRuntimeError::Io { path, message } => "failed to communicate with plugin executable '"@ + path@ + "': "@ + message@,
        PluginRuntimeError::NonZeroExit { path, status, stderr } => "plugin executable '"@ + path@ + "' exited with non-zero status "@
            + signed_decimal(status) + ": "@ + stderr@,
        PluginRuntimeError::InvalidJson { path, message } => "plugin executable '"@ + path@ + "' produced invalid JSON: "@ + message@,
        PluginRuntimeError::UnexpectedResponse { path, message } => "plugin executable '"@ + path@ + "' returned an unexpected response: "@
            + message@,
        PluginRuntimeError::Protocol { .. } => "plugin protocol error"@,
    }
}

fn signed_decimal_string(n: i32) -> (r: String)
    ensures
        r@ == signed_decimal(n),
{
    if n < 0 {
        let magnitude: u64 = (0i64 - (n as i64)) as u64;
        let digits = decimal_string(magnitude);
        proof {
            reveal_strlit("-");
        }
        concat2("-", digits.as_str())
    } else {
        decimal_string(n as u64)
    }
}

fn join4(a: &str, b: &str, c: &str, d: &str) -> (r: String)
    ensures
        r@ == a@ + b@ + c@ + d@,
{
    let mut s = concat3(a, b, c);
    s.append(d);
    s
}

impl PluginRuntimeError {
    /// The error's description.
    pub fn to_string(&self) -> (r: String)
        ensures
            r@ == spec_runtime_message(*self),
    {
        match self {
            PluginRuntimeError::ExecutableNotFound { path } => concat2("plugin executable not found: ", path.as_str()),
            PluginRuntimeError::SpawnFailed { path, message } => join4(
                "failed to spawn plugin executable '",
                path.as_str(),
                "': ",
                message.as_str(),
            ),
            PluginRuntimeError::Io { path, message } => join4(
                "failed to communicate with plugin executable '",
                path.as_str(),
                "': ",
                message.as_str(),
            ),
            PluginRuntimeError::NonZeroExit { path, status, stderr } => {
                let mut s = concat3("plugin executable '", path.as_str(), "' exited with non-zero status ");
                let code = signed_decimal_string(*status);
                s.append(code.as_str());
                s.append(": ");
                s.append(stderr.as_str());
                s
            },
            PluginRuntimeError::InvalidJson { path, message } => join4(
                "plugin executable '",
                path.as_str(),
                "' produced invalid JSON: ",
                message.as_str(),
            ),
            PluginRuntimeError::UnexpectedResponse { path, message } => join4(
                "plugin executable '",
                path.as_str(),
                "' returned an unexpected response: ",
                message.as_str(),
            ),
            PluginRuntimeError::Protocol { .. } => String::from_str("plugin protocol error"),
        }
    }

    /// The protocol error a runtime error is reported as: a protocol error as it is, any
    /// other error as an internal plugin error described by its text.
    pub fn to_protocol_error(&self) -> (r: ProtocolError)
        ensures
            match *self {
                PluginRuntimeError::Protocol { error } => r@ == error@,
                _ => r@ == (ProtocolErrorView::InternalPluginError { message: spec_runtime_message(*self) }),
            },
    {
        match self {
            PluginRuntimeError::Protocol { error } => error.clone(),
            _ => ProtocolError::InternalPluginError { message: self.to_string() },
        }
    }
}

} // verus!
