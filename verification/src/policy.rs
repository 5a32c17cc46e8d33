//! The trust policy installed into a TLS transport: either exact-match
//! pinning for real application traffic, or the discovery capture used for
//! one throwaway bootstrap handshake. Dispatch is a tagged-variant match, so
//! the two strategies can never be substituted for one another by accident,
//! and discovery and pinned modes never share a verifier instance.

use vstd::prelude::*;

use crate::cert::{Certificate, PinningDecision, PinningError};
use crate::discovery::{capture_after, FetchCertificateVerifier};
use crate::pinning::{cert_set_accepts, PowerwallVerifier};

verus! {

/// The certificate-verification strategy a transport is configured with.
pub enum TrustPolicy {
    /// Exact-match pinning against a fixed trusted set.
    Pinned(PowerwallVerifier),
    /// Unconditional accept-and-capture, valid only inside the discovery
    /// flow.
    Discovery(FetchCertificateVerifier),
}

impl TrustPolicy {
    /// The handshake's trust decision, together with the certificate to hand
    /// through the rendezvous channel when the discovery strategy captures
    /// one. A pinned policy never changes and never hands a certificate out;
    /// a discovery policy always accepts and captures the first certificate
    /// presented to it.
    pub fn verify_server_cert(&mut self, end_entity: &Certificate) -> (r: (
        PinningDecision,
        Option<Certificate>,
    ))
        ensures
            match *old(self) {
                TrustPolicy::Pinned(v) => {
                    &&& ((*final(self)) matches TrustPolicy::Pinned(after) && after@ == v@)
                    &&& r.1 is None
                    &&& r.0 == (if cert_set_accepts(v@, end_entity@) {
                        PinningDecision::Accepted
                    } else {
                        PinningDecision::Rejected(PinningError::ServerCertificateNotPermitted)
                    })
                },
                TrustPolicy::Discovery(d) => {
                    &&& ((*final(self)) matches TrustPolicy::Discovery(after)
                        && after.spec_captured() == capture_after(d.spec_captured(), end_entity@))
                    &&& r.0 is Accepted
                    &&& (d.spec_captured() is None ==> (r.1 matches Some(c) && c@ == end_entity@))
                    &&& (d.spec_captured() is Some ==> r.1 is None)
                },
            },
    {
        match self {
            TrustPolicy::Pinned(v) => {
                let decision = v.verify_server_cert(end_entity);
                (decision, None)
            },
            TrustPolicy::Discovery(d) => d.verify_server_cert(end_entity),
        }
    }
}

} // verus!
