//! The record of a plugin directory scan: which executables answered with a manifest
//! and which were refused, and the registry built from the former.
use vstd::prelude::*;

use crate::output::plugin_client::EncoderPluginClient;
use crate::output::plugin_protocol::{PluginManifest, ProtocolError};
use crate::output::plugin_registry::PluginRegistry;
use crate::output::plugin_runtime_error::PluginRuntimeError;
use crate::text::IntoText;

verus! {

/// An executable that answered with a valid manifest, and the client that reaches it.
pub struct DiscoveredPlugin<C> {
    pub executable: String,
    pub manifest: PluginManifest,
    pub client: C,
}

/// An executable that could not be used as a plugin, and why.
#[derive(Debug)]
pub struct RejectedPlugin {
    pub executable: String,
    pub error: PluginRuntimeError,
}

/// The outcome of scanning a plugin directory.
pub struct PluginDiscoveryReport<C> {
    pub discovered: Vec<DiscoveredPlugin<C>>,
    pub rejected: Vec<RejectedPlugin>,
}

/// Whether Unix permission bits let anyone execute the file.
pub open spec fn spec_is_executable_mode(mode: u32) -> bool {
    mode & 0o111u32 != 0
}

/// Whether Unix permission bits let anyone execute the file.
pub fn is_executable_mode(mode: u32) -> (r: bool)
    ensures
        r == spec_is_executable_mode(mode),
{
    mode & 0o111u32 != 0
}

impl<C> PluginDiscoveryReport<C> {
    pub fn new() -> (r: Self)
        ensures
            r.discovered@.len() == 0,
            r.rejected@.len() == 0,
    {
        PluginDiscoveryReport { discovered: Vec::new(), rejected: Vec::new() }
    }

    /// The report of a directory that could not be read: the directory itself, rejected.
    pub fn unreadable_directory<D: IntoText + Copy>(directory: D, message: String) -> (r: Self)
        ensures
            r.discovered@.len() == 0,
            r.rejected@.len() == 1,
            r.rejected@[0].executable@ == directory.text(),
            r.rejected@[0].error matches PluginRuntimeError::Io { path, message: m } && path@ == directory.text() && m@ == message@,
    {
        let mut rejected: Vec<RejectedPlugin> = Vec::new();
        rejected.push(RejectedPlugin {
            executable: directory.into_text(),
            error: PluginRuntimeError::Io { path: directory.into_text(), message },
        });
        PluginDiscoveryReport { discovered: Vec::new(), rejected }
    }

    /// Records what asking an executable for its manifest gave.
    pub fn record(&mut self, executable: String, outcome: Result<PluginManifest, PluginRuntimeError>, client: C)
        ensures
            match outcome {
                Ok(manifest) => {
                    &&& final(self).rejected@ == old(self).rejected@
                    &&& final(self).discovered@.len() == old(self).discovered@.len() + 1
                    &&& final(self).discovered@.drop_last() == old(self).discovered@
                    &&& final(self).discovered@.last() == (DiscoveredPlugin { executable, manifest, client })
                },
                Err(error) => {
                    &&& final(self).discovered@ == old(self).discovered@
                    &&& final(self).rejected@ == old(self).rejected@.push(RejectedPlugin { executable, error })
                },
            },
    {
        match outcome {
            Ok(manifest) => {
                let ghost before = self.discovered@;
                self.discovered.push(DiscoveredPlugin { executable, manifest, client });
                assert(self.discovered@.drop_last() =~= before);
            },
            Err(error) => {
                self.rejected.push(RejectedPlugin { executable, error });
            },
        }
    }
}

/// A registry of the discovered plugins, registered in order; the first refusal is returned.
pub fn build_registry_from_discovery<C: EncoderPluginClient + Clone>(report: PluginDiscoveryReport<C>) -> (r: Result<PluginRegistry<C>, ProtocolError>)
    ensures
        r matches Ok(registry) ==> registry@.len() == report.discovered@.len()
            && forall|i: int| 0 <= i < report.discovered@.len() ==> cloned(report.discovered@[i].client, #[trigger] registry@[i]),
        report.discovered@.len() == 0 ==> r is Ok,
{
    let mut registry: PluginRegistry<C> = PluginRegistry::new();
    let discovered = report.discovered;
    let mut i: usize = 0;
    while i < discovered.len()
        invariant
            i <= discovered@.len(),
            discovered@ == report.discovered@,
            registry@.len() == i,
            forall|j: int| 0 <= j < i ==> cloned(discovered@[j].client, #[trigger] registry@[j]),
        decreases discovered@.len() - i,
    {
        let client = discovered[i].client.clone();
        match registry.register(client) {
            Ok(()) => {},
            Err(e) => {
                return Err(e);
            },
        }
        i = i + 1;
    }
    Ok(registry)
}

} // verus!
