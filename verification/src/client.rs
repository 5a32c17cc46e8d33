//! The steady-state gateway client configuration: one base URL on the fixed
//! symbolic hostname, one address override, and the pin-enforcing verifier,
//! wired together once at construction and immutable for the client's
//! lifetime. Construction performs no network I/O.

use vstd::prelude::*;
use vstd::string::StringExecFns;

use crate::cert::{Certificate, PinningDecision, PinningError};
use crate::pinning::{cert_set_accepts, PowerwallVerifier};
use crate::resolver::{AddressOverride, ResolveError, SocketAddress};

verus! {

/// The fixed symbolic hostname of the gateway. It is used for TLS
/// server-name indication and Host headers, never resolved through DNS, and
/// must match the address override's key exactly.
pub fn base_name() -> (r: &'static str)
    ensures
        r@ == "teg"@,
{
    "teg"
}

/// The fixed base URL every request is built on. It names the symbolic
/// hostname, never a concrete address.
pub fn base_url() -> (r: &'static str)
    ensures
        r@ == "https://teg"@,
{
    "https://teg"
}

/// The base URL is exactly the https scheme applied to the symbolic
/// hostname: the URL-construction logic and the resolver configuration share
/// one name, so a mismatch between them cannot arise.
pub proof fn lemma_base_url_matches_base_name()
    ensures
        "https://teg"@ == "https://"@ + "teg"@,
{
    reveal_strlit("https://teg");
    reveal_strlit("https://");
    reveal_strlit("teg");
    assert("https://teg"@ =~= "https://"@ + "teg"@);
}

/// The gateway client's trust-layer configuration.
pub struct Client {
    base: String,
    override_entry: AddressOverride,
    verifier: PowerwallVerifier,
}

impl Client {
    /// The base URL every request URL extends.
    pub closed spec fn spec_base(&self) -> Seq<char> {
        self.base@
    }

    /// The symbolic hostname the override binds.
    pub closed spec fn spec_override_host(&self) -> Seq<char> {
        self.override_entry.spec_host()
    }

    /// The concrete address the symbolic hostname is dialed at.
    pub closed spec fn spec_override_addr(&self) -> SocketAddress {
        self.override_entry.spec_addr()
    }

    /// The pinned certificates, as byte sequences.
    pub closed spec fn spec_trusted(&self) -> Seq<Seq<u8>> {
        self.verifier@
    }

    /// Builds the client configuration: requests go to the fixed base URL,
    /// the symbolic hostname is dialed at `addr`, and the TLS trust decision
    /// is exact-match pinning against `certificates`. Purely configuration;
    /// nothing can fail and no network activity happens here.
    pub fn new(addr: SocketAddress, certificates: Vec<Certificate>) -> (c: Self)
        ensures
            c.spec_base() == "https://teg"@,
            c.spec_override_host() == "teg"@,
            c.spec_override_addr() == addr,
            c.spec_trusted().len() == certificates@.len(),
            forall|i: int|
                0 <= i < certificates@.len() ==> c.spec_trusted()[i] == certificates@[i]@,
    {
        let base = String::from_str(base_url());
        let override_entry = AddressOverride::new(String::from_str(base_name()), addr);
        let verifier = PowerwallVerifier::new(certificates);
        Client { base, override_entry, verifier }
    }

    /// The client's pinning decision for a presented leaf certificate.
    pub fn verify_server_cert(&self, end_entity: &Certificate) -> (r: PinningDecision)
        ensures
            r == (if cert_set_accepts(self.spec_trusted(), end_entity@) {
                PinningDecision::Accepted
            } else {
                PinningDecision::Rejected(PinningError::ServerCertificateNotPermitted)
            }),
    {
        self.verifier.verify_server_cert(end_entity)
    }

    /// Where the transport dials a request for `host`: the configured
    /// address for the symbolic hostname, a distinct failure for any other.
    pub fn dial_address(&self, host: &String) -> (r: Result<SocketAddress, ResolveError>)
        ensures
            host@ == self.spec_override_host() ==> r == Ok::<SocketAddress, ResolveError>(
                self.spec_override_addr(),
            ),
            host@ != self.spec_override_host() ==> r == Err::<SocketAddress, ResolveError>(
                ResolveError::HostNotOverridden,
            ),
    {
        self.override_entry.dial_address(host)
    }

    /// The base URL, for the transport configuration.
    pub fn base_url_string(&self) -> (r: String)
        ensures
            r@ == self.spec_base(),
    {
        self.base.clone()
    }

    /// The URL of the status endpoint, which requires no authentication.
    pub fn status_url(&self) -> (r: String)
        ensures
            r@ == self.spec_base() + "/api/status"@,
    {
        let mut url = self.base.clone();
        url.append("/api/status");
        url
    }

    /// The URL of the login endpoint.
    pub fn login_url(&self) -> (r: String)
        ensures
            r@ == self.spec_base() + "/api/login/Basic"@,
    {
        let mut url = self.base.clone();
        url.append("/api/login/Basic");
        url
    }

    /// The URL of the metering aggregates endpoint.
    pub fn meters_aggregates_url(&self) -> (r: String)
        ensures
            r@ == self.spec_base() + "/api/meters/aggregates"@,
    {
        let mut url = self.base.clone();
        url.append("/api/meters/aggregates");
        url
    }

    /// The URL of the radio compliance endpoint.
    pub fn legal_radio_url(&self) -> (r: String)
        ensures
            r@ == self.spec_base() + "/api/legal/radio"@,
    {
        let mut url = self.base.clone();
        url.append("/api/legal/radio");
        url
    }
}

/// The value of the Accept header sent with every request: nearly all of the
/// gateway's endpoints return JSON.
pub fn accept_header_value() -> (r: &'static str)
    ensures
        r@ == "application/json; charset=utf-8"@,
{
    "application/json; charset=utf-8"
}

} // verus!
