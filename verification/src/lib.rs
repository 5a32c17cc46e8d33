//! Client-side trust layer for a single embedded energy-gateway appliance
//! that serves its REST API over TLS with a self-signed, device-generated
//! certificate.
//!
//! The crate provides the two certificate-verification strategies (exact-match
//! pinning and trust-on-first-use discovery capture), the address override
//! that dials a fixed symbolic hostname at an operator-supplied address, the
//! decision logic of the discovery orchestrator, and the plain-value codecs
//! used by the gateway's REST payloads.

pub mod cert;
pub mod client;
pub mod discovery;
pub mod duration;
pub mod hash;
pub mod legal;
pub mod meters;
pub mod pem_text;
pub mod pinning;
pub mod policy;
pub mod resolver;
