//! The textual certificate encoding at the system's edges: a pin file is one
//! or more PEM blocks, and a certificate captured via discovery is re-encoded
//! to the same textual format for the operator to persist as a future pin
//! file.

use vstd::prelude::*;

use crate::cert::Certificate;
use crate::pinning::{cert_set_accepts, PowerwallVerifier};

verus! {

/// The PEM text of a CERTIFICATE block with the given DER contents: for a
/// fixed tag, the encoder's output is a function of the contents alone.
pub uninterp spec fn pem_certificate_text(der: Seq<u8>) -> Seq<u8>;

/// The failure of reading a pin file's content.
#[derive(Clone, Copy, Debug, PartialEq, Eq, Structural)]
pub enum PemParseError {
    Malformed,
}

impl PemParseError {
    /// A human-readable description of the error.
    pub fn message(&self) -> (r: &'static str)
        ensures
            r@ == "malformed certificate file content"@,
    {
        "malformed certificate file content"
    }
}

/// Relies on pem::encode with the CERTIFICATE tag: it emits a BEGIN line,
/// the base64 of the DER contents in fixed-width lines, and an END line,
/// deterministically from the contents alone.
#[verifier::external_body]
pub fn encode_certificate(cert: &Certificate) -> (r: Vec<u8>)
    ensures
        r@ == pem_certificate_text(cert@),
{
    pem::encode(&pem::Pem::new("CERTIFICATE", cert.0.as_slice())).into_bytes()
}

/// Relies on rustls_pemfile::certs: it scans the input for PEM sections and
/// returns the DER contents of every CERTIFICATE section, in order; input
/// without sections yields an empty list, and the PEM text of one
/// certificate yields exactly that certificate's bytes.
#[verifier::external_body]
pub fn parse_certificates(bytes: &[u8]) -> (r: Result<Vec<Certificate>, PemParseError>)
    ensures
        r matches Ok(certs) ==> (forall|der: Seq<u8>|
            bytes@ == pem_certificate_text(der) ==> (certs@.len() == 1 && certs@[0]@ == der)),
        r matches Ok(certs) ==> (bytes@.len() == 0 ==> certs@.len() == 0),
        r is Err ==> (forall|der: Seq<u8>| bytes@ != pem_certificate_text(der)),
{
    let mut reader = bytes;
    match rustls_pemfile::certs(&mut reader) {
        Ok(ders) => Ok(ders.into_iter().map(Certificate).collect()),
        Err(_) => Err(PemParseError::Malformed),
    }
}

/// Round trip of the discovery output: a captured certificate, re-encoded to
/// the textual format and re-parsed, pins exactly the original bytes, so the
/// pin-enforcing verifier built from the re-parsed file accepts a subsequent
/// handshake presenting the identical certificate.
pub fn repin_captured_certificate(cert: &Certificate) -> (r: PowerwallVerifier)
    ensures
        r@.len() == 1,
        r@[0] == cert@,
        cert_set_accepts(r@, cert@),
{
    let text = encode_certificate(cert);
    let parsed = parse_certificates(text.as_slice());
    proof {
        assert(text@ == pem_certificate_text(cert@));
    }
    match parsed {
        Ok(certs) => {
            let verifier = PowerwallVerifier::new(certs);
            proof {
                assert(verifier@[0] == cert@);
            }
            verifier
        },
        Err(_) => {
            proof {
                assert(false);
            }
            PowerwallVerifier::new(Vec::new())
        },
    }
}

} // verus!
