//! The address override: a static, operator-configured substitute for DNS
//! resolution, binding one fixed symbolic hostname to one concrete network
//! address.
//!
//! Any request whose URL hostname matches the symbolic name is physically
//! dialed at the configured address, while TLS server-name indication and
//! Host-header logic keep using the symbolic hostname unchanged. No DNS
//! lookup is ever performed for the symbolic hostname.

use vstd::prelude::*;

verus! {

/// A concrete IP address, as plain values.
#[derive(Clone, Copy, Debug, PartialEq, Eq, Structural)]
pub enum IpAddress {
    V4(u8, u8, u8, u8),
    V6(u16, u16, u16, u16, u16, u16, u16, u16),
}

/// A concrete network destination: IP address and port.
#[derive(Clone, Copy, Debug, PartialEq, Eq, Structural)]
pub struct SocketAddress {
    pub ip: IpAddress,
    pub port: u16,
}

/// Why a dial attempt fails at the transport layer. A hostname mismatch is a
/// connection failure, not a trust failure.
#[derive(Clone, Copy, Debug, PartialEq, Eq, Structural)]
pub enum ResolveError {
    HostNotOverridden,
}

/// The mapping from the one fixed symbolic hostname to the one concrete
/// network address, supplied once at client construction and immutable
/// thereafter. Exactly one override entry exists per client.
pub struct AddressOverride {
    host: String,
    addr: SocketAddress,
}

impl AddressOverride {
    /// The symbolic hostname this override binds.
    pub closed spec fn spec_host(&self) -> Seq<char> {
        self.host@
    }

    /// The concrete address the hostname is dialed at.
    pub closed spec fn spec_addr(&self) -> SocketAddress {
        self.addr
    }

    /// Binds the symbolic hostname to the concrete address. Purely
    /// configuration: no network activity, and no failure mode.
    pub fn new(host: String, addr: SocketAddress) -> (r: Self)
        ensures
            r.spec_host() == host@,
            r.spec_addr() == addr,
    {
        AddressOverride { host, addr }
    }

    /// Where a request for `host` is physically dialed: the configured
    /// address exactly when `host` matches the override's symbolic hostname,
    /// whatever the configured address is; for any other hostname the
    /// override is absent and the dial fails distinctly, never silently
    /// routing elsewhere.
    pub fn dial_address(&self, host: &String) -> (r: Result<SocketAddress, ResolveError>)
        ensures
            host@ == self.spec_host() ==> r == Ok::<SocketAddress, ResolveError>(self.spec_addr()),
            host@ != self.spec_host() ==> r == Err::<SocketAddress, ResolveError>(
                ResolveError::HostNotOverridden,
            ),
    {
        if self.host == *host {
            Ok(self.addr)
        } else {
            Err(ResolveError::HostNotOverridden)
        }
    }
}

} // verus!
