//! The pin-enforcing certificate verifier.
//!
//! Given a fixed set of trusted certificates, it accepts a presented TLS
//! server certificate if and only if it is byte-identical to one of them.
//! No chain building, hostname check, expiry check or revocation check is
//! performed: pinning substitutes an exact-match comparison for the whole
//! CA-trust pipeline.

use vstd::prelude::*;

use crate::cert::{bytes_eq, Certificate, PinningDecision, PinningError};

verus! {

/// A trusted set accepts a presented certificate exactly when the presented
/// bytes equal some member of the set.
pub open spec fn cert_set_accepts(trusted: Seq<Seq<u8>>, presented: Seq<u8>) -> bool {
    exists|i: int| 0 <= i < trusted.len() && trusted[i] == presented
}

/// The pin-enforcing verifier: an immutable set of trusted certificates,
/// established at construction.
pub struct PowerwallVerifier {
    trusted: Vec<Certificate>,
}

impl View for PowerwallVerifier {
    type V = Seq<Seq<u8>>;

    closed spec fn view(&self) -> Seq<Seq<u8>> {
        Seq::new(self.trusted@.len(), |i: int| self.trusted@[i]@)
    }
}

impl PowerwallVerifier {
    /// Builds a verifier that trusts exactly the given certificates.
    pub fn new(trusted: Vec<Certificate>) -> (r: Self)
        ensures
            r@.len() == trusted@.len(),
            forall|i: int| 0 <= i < trusted@.len() ==> r@[i] == trusted@[i]@,
    {
        PowerwallVerifier { trusted }
    }

    /// The pinning decision: `Accepted` if and only if the presented leaf
    /// certificate is byte-identical to a member of the trusted set;
    /// otherwise `Rejected` with the distinguishable untrusted-certificate
    /// error. Intermediates, SNI name, timestamps and transparency data play
    /// no part in the decision.
    pub fn verify_server_cert(&self, end_entity: &Certificate) -> (r: PinningDecision)
        ensures
            r == (if cert_set_accepts(self@, end_entity@) {
                PinningDecision::Accepted
            } else {
                PinningDecision::Rejected(PinningError::ServerCertificateNotPermitted)
            }),
    {
        let n = self.trusted.len();
        for i in 0..n
            invariant
                n == self.trusted@.len(),
                forall|j: int| 0 <= j < i ==> self@[j] != end_entity@,
    {
            if bytes_eq(self.trusted[i].0.as_slice(), end_entity.0.as_slice()) {
                proof {
                    assert(self@[i as int] == end_entity@);
                }
                return PinningDecision::Accepted;
            }
        }
        PinningDecision::Rejected(PinningError::ServerCertificateNotPermitted)
    }
}

/// A certificate pinned from itself always verifies: if the presented bytes
/// are a member of the trusted set, the set accepts them.
pub proof fn lemma_pinned_certificate_accepted(trusted: Seq<Seq<u8>>, presented: Seq<u8>)
    requires
        trusted.contains(presented),
    ensures
        cert_set_accepts(trusted, presented),
{
    let i = choose|i: int| 0 <= i < trusted.len() && trusted[i] == presented;
    assert(0 <= i < trusted.len() && trusted[i] == presented);
}

/// The empty trusted set rejects every possible certificate.
pub proof fn lemma_empty_set_rejects_all(presented: Seq<u8>)
    ensures
        !cert_set_accepts(Seq::<Seq<u8>>::empty(), presented),
{
}

/// Changing any single byte of a pinned certificate causes rejection by a
/// verifier that pins only the original bytes.
pub proof fn lemma_mutated_certificate_rejected(pinned: Seq<u8>, i: int, b: u8)
    requires
        0 <= i < pinned.len(),
        b != pinned[i],
    ensures
        !cert_set_accepts(seq![pinned], pinned.update(i, b)),
{
    let mutated = pinned.update(i, b);
    assert(mutated[i] == b);
    assert(pinned[i] != mutated[i]);
    assert(pinned != mutated);
}

} // verus!
