//! The certificate value and the result of a trust decision.

use vstd::prelude::*;

verus! {

/// A DER-encoded X.509 leaf certificate, held as an opaque byte sequence.
///
/// The trust layer never interprets the contents beyond whole-value equality:
/// a certificate renewed with identical key material but a different encoding
/// is a different certificate.
pub struct Certificate(pub Vec<u8>);

impl View for Certificate {
    type V = Seq<u8>;

    open spec fn view(&self) -> Seq<u8> {
        self.0@
    }
}

impl Clone for Certificate {
    fn clone(&self) -> (r: Self)
        ensures
            r@ == self@,
    {
        let bytes = self.0.clone();
        proof {
            assert(bytes@ =~= self.0@);
        }
        Certificate(bytes)
    }
}

/// The error a pinned handshake fails with when the presented certificate
/// matches no pinned one.
#[derive(Clone, Copy, Debug, PartialEq, Eq, Structural)]
pub enum PinningError {
    ServerCertificateNotPermitted,
}

impl PinningError {
    /// A human-readable description of the error.
    pub fn message(&self) -> (r: &'static str)
        ensures
            r@ == "server certificate not permitted"@,
    {
        "server certificate not permitted"
    }
}

/// The outcome of comparing a presented certificate against a trust policy:
/// a handshake is wholly accepted or wholly rejected.
#[derive(Clone, Copy, Debug, PartialEq, Eq, Structural)]
pub enum PinningDecision {
    Accepted,
    Rejected(PinningError),
}

/// Byte-for-byte equality of two byte slices.
pub fn bytes_eq(a: &[u8], b: &[u8]) -> (r: bool)
    ensures
        r == (a@ == b@),
{
    if a.len() != b.len() {
        return false;
    }
    let n = a.len();
    for i in 0..n
        invariant
            n == a@.len(),
            a@.len() == b@.len(),
            forall|j: int| 0 <= j < i ==> a@[j] == b@[j],
    {
        if a[i] != b[i] {
            return false;
        }
    }
    proof {
        assert(a@ =~= b@);
    }
    true
}

} // verus!
