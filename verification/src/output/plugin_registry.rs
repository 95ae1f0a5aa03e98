//! Registered encoder plugins, each checked when it is registered.
use vstd::prelude::*;

use crate::output::encoder_registry::{behaves_as, BoxedEncoder};
use crate::output::plugin_client::EncoderPluginClient;
use crate::output::plugin_encoder::{encoder_for_manifest, manifest_outcome, PluginBackedEncoder};
use crate::output::plugin_protocol::{spec_validate_manifest, PluginManifest, ProtocolError};

verus! {

/// A plugin-backed encoder behind a pointer.
fn boxed_encoder<C: EncoderPluginClient>(encoder: PluginBackedEncoder<C>) -> (r: BoxedEncoder)
    where C: 'static,
    ensures
        behaves_as(r, encoder),
{
    BoxedEncoder(Box::new(encoder))
}

/// Whether `e` behaves as the encoder a valid manifest makes of a copy of `client`.
pub open spec fn built_for<C: EncoderPluginClient + Clone>(e: BoxedEncoder, client: C) -> bool {
    exists|encoder: PluginBackedEncoder<C>, manifest: PluginManifest| #[trigger] behaves_as(e, encoder)
        && #[trigger] encoder_for_manifest(encoder, manifest, encoder.client) && cloned(client, encoder.client)
}

/// What registering gives for a manifest answer: the client's error as it came, the
/// manifest's validation error, or success for a valid manifest.
pub open spec fn registration_outcome(answer: Result<PluginManifest, ProtocolError>, r: Result<(), ProtocolError>) -> bool {
    match answer {
        Err(e) => r == Err::<(), ProtocolError>(e),
        Ok(m) => match spec_validate_manifest(m) {
            Err(e) => r matches Err(x) && x@ == e,
            Ok(()) => r is Ok,
        },
    }
}

/// Whether building an encoder for a copy of `client` can fail with `e`: the manifest the
/// copy answered with gives that error.
pub open spec fn build_failed<C: EncoderPluginClient + Clone>(client: C, e: ProtocolError) -> bool {
    exists|copy: C, answer: Result<PluginManifest, ProtocolError>| #[trigger] cloned(client, copy)
        && call_ensures(C::manifest, (&copy,), answer)
        && #[trigger] manifest_outcome(answer, copy, Err::<PluginBackedEncoder<C>, ProtocolError>(e))
}

/// Whether building an encoder for a copy of `client` can succeed: the copy can answer
/// with a valid manifest.
pub open spec fn build_succeeded<C: EncoderPluginClient + Clone>(client: C) -> bool {
    exists|copy: C, answer: Result<PluginManifest, ProtocolError>| #[trigger] cloned(client, copy)
        && #[trigger] call_ensures(C::manifest, (&copy,), answer)
        && (answer matches Ok(m) && spec_validate_manifest(m) is Ok)
}

/// Plugin clients whose manifests were valid when they were registered.
pub struct PluginRegistry<C: EncoderPluginClient + Clone> {
    clients: Vec<C>,
}

impl<C: EncoderPluginClient + Clone> View for PluginRegistry<C> {
    type V = Seq<C>;

    closed spec fn view(&self) -> Seq<C> {
        self.clients@
    }
}

impl<C: EncoderPluginClient + Clone> PluginRegistry<C> {
    pub fn new() -> (r: Self)
        ensures
            r@.len() == 0,
    {
        PluginRegistry { clients: Vec::new() }
    }

    /// Registers a client once its manifest yields a valid encoder; otherwise returns
    /// the error and leaves the registry as it was.
    pub fn register(&mut self, client: C) -> (r: Result<(), ProtocolError>)
        ensures
            r is Ok ==> final(self)@ == old(self)@.push(client),
            r is Err ==> final(self)@ == old(self)@,
            exists|copy: C, answer: Result<PluginManifest, ProtocolError>| #[trigger] cloned(client, copy)
                && call_ensures(C::manifest, (&copy,), answer) && #[trigger] registration_outcome(answer, r),
    {
        let copy = client.clone();
        let built = PluginBackedEncoder::from_client(copy);
        let ghost answer = choose|answer: Result<PluginManifest, ProtocolError>| call_ensures(C::manifest, (&copy,), answer)
            && #[trigger] manifest_outcome(answer, copy, built);
        match built {
            Ok(_) => {},
            Err(e) => {
                let r = Err(e);
                assert(cloned(client, copy) && call_ensures(C::manifest, (&copy,), answer) && registration_outcome(answer, r));
                return r;
            },
        }
        self.clients.push(client);
        let r = Ok(());
        assert(cloned(client, copy) && call_ensures(C::manifest, (&copy,), answer) && registration_outcome(answer, r));
        r
    }

    /// An encoder for every registered client, in registration order: each behaves as the
    /// encoder a valid manifest makes of a copy of its client. The manifests come from the
    /// clients again, so whether every encoder is built is the clients' answer.
    pub fn build_encoders(&self) -> (r: Result<Vec<BoxedEncoder>, ProtocolError>)
        where C: 'static,
        ensures
            self@.len() == 0 ==> r is Ok,
            r matches Ok(encoders) ==> encoders@.len() == self@.len() && forall|i: int| 0 <= i < encoders@.len()
                ==> #[trigger] built_for(encoders@[i], self@[i]),
            r matches Err(e) ==> exists|k: int| 0 <= k < self@.len() && #[trigger] build_failed(self@[k], e)
                && forall|j: int| 0 <= j < k ==> #[trigger] build_succeeded(self@[j]),
    {
        let mut encoders: Vec<BoxedEncoder> = Vec::new();
        let mut i: usize = 0;
        while i < self.clients.len()
            invariant
                i <= self.clients@.len(),
                encoders@.len() == i,
                forall|j: int| 0 <= j < i ==> #[trigger] built_for(encoders@[j], self@[j]),
                forall|j: int| 0 <= j < i ==> #[trigger] build_succeeded(self@[j]),
            decreases self.clients@.len() - i,
        {
            let client = self.clients[i].clone();
            let built = PluginBackedEncoder::from_client(client);
            let encoder = match built {
                Ok(encoder) => encoder,
                Err(e) => {
                    proof {
                        let answer = choose|answer: Result<PluginManifest, ProtocolError>| call_ensures(C::manifest, (&client,), answer)
                            && #[trigger] manifest_outcome(answer, client, built);
                        assert(cloned(self@[i as int], client));
                        assert(build_failed(self@[i as int], e));
                    }
                    return Err(e);
                },
            };
            let ghost model = encoder;
            let boxed = boxed_encoder(encoder);
            proof {
                let manifest = choose|manifest: PluginManifest| #[trigger] encoder_for_manifest(model, manifest, client);
                assert(built_for(boxed, self@[i as int]));
                let answer = choose|answer: Result<PluginManifest, ProtocolError>| call_ensures(C::manifest, (&client,), answer)
                    && #[trigger] manifest_outcome(answer, client, built);
                assert(cloned(self@[i as int], client));
                assert(build_succeeded(self@[i as int]));
            }
            let ghost before = encoders@;
            encoders.push(boxed);
            proof {
                assert(encoders@ == before.push(boxed));
            }
            i = i + 1;
        }
        Ok(encoders)
    }

    pub fn len(&self) -> (r: usize)
        ensures
            r == self@.len(),
    {
        self.clients.len()
    }

    pub fn is_empty(&self) -> (r: bool)
        ensures
            r == (self@.len() == 0),
    {
        self.clients.len() == 0
    }
}

impl<C: EncoderPluginClient + Clone> Default for PluginRegistry<C> {
    fn default() -> (r: Self)
        ensures
            r@.len() == 0,
    {
        PluginRegistry::new()
    }
}

} // verus!
