//! The trust-on-first-use discovery side of the trust layer.
//!
//! During a bootstrap handshake the discovery verifier accepts whatever
//! certificate the server presents — there is nothing to compare against yet —
//! and hands the first certificate it observes off through a single-use
//! capture slot, exactly once. The discovery orchestrator's decision logic is
//! here as well: it commits to the first captured certificate, treats the
//! settling of the throwaway request (with success or error alike) as reason
//! to keep waiting, and converts an expired bounded wait into the distinct
//! no-certificate-observed outcome.

use vstd::prelude::*;

use crate::cert::{Certificate, PinningDecision};

verus! {

/// What a one-shot capture slot holds after one more certificate is offered:
/// the first offer fills the slot, every later one is a no-op.
pub open spec fn capture_after(slot: Option<Seq<u8>>, presented: Seq<u8>) -> Option<Seq<u8>> {
    match slot {
        Some(first) => Some(first),
        None => Some(presented),
    }
}

/// A single-use ownership slot for handing one captured certificate from the
/// synchronous handshake callback to the asynchronously waiting orchestrator.
/// The slot is consumed at most once; a second capture attempt on the same
/// slot is a no-op, not an error — the first certificate observed wins.
pub struct CaptureSlot {
    captured: Option<Certificate>,
}

impl CaptureSlot {
    /// The certificate handed off through this slot so far, if any.
    pub closed spec fn spec_captured(&self) -> Option<Seq<u8>> {
        match self.captured {
            Some(c) => Some(c@),
            None => None,
        }
    }

    /// A fresh, still-armed slot.
    pub fn new() -> (r: Self)
        ensures
            r.spec_captured() is None,
    {
        CaptureSlot { captured: None }
    }

    /// Offers a certificate to the slot. Returns the value to transfer
    /// through the rendezvous channel: a clone of the presented certificate
    /// on the first offer, nothing afterwards.
    pub fn offer(&mut self, presented: &Certificate) -> (sent: Option<Certificate>)
        ensures
            final(self).spec_captured() == capture_after(old(self).spec_captured(), presented@),
            old(self).spec_captured() is None ==> (sent matches Some(c) && c@ == presented@),
            old(self).spec_captured() is Some ==> sent is None,
    {
        match self.captured {
            Some(_) => None,
            None => {
                let kept = presented.clone();
                let sent = presented.clone();
                self.captured = Some(kept);
                Some(sent)
            },
        }
    }
}

/// The discovery-capturing verifier: wraps the capture slot that owns the
/// sender half of the rendezvous channel. It must never be reused for a
/// connection carrying real application data; its acceptance of any
/// certificate is a deliberate trust bypass valid only inside the discovery
/// flow.
pub struct FetchCertificateVerifier {
    slot: CaptureSlot,
}

impl FetchCertificateVerifier {
    /// The certificate this verifier has captured so far, if any.
    pub closed spec fn spec_captured(&self) -> Option<Seq<u8>> {
        self.slot.spec_captured()
    }

    /// A fresh verifier for one discovery attempt, with nothing captured yet.
    pub fn new() -> (r: Self)
        ensures
            r.spec_captured() is None,
    {
        FetchCertificateVerifier { slot: CaptureSlot::new() }
    }

    /// The discovery decision: always `Accepted`, regardless of the
    /// certificate's content — there is, by definition, nothing yet to
    /// compare against. The side effect is the capture: the first presented
    /// certificate fills the slot and is returned for transfer through the
    /// rendezvous channel; on every later invocation the send is silently
    /// dropped and the first capture stands.
    pub fn verify_server_cert(&mut self, end_entity: &Certificate) -> (r: (
        PinningDecision,
        Option<Certificate>,
    ))
        ensures
            r.0 is Accepted,
            final(self).spec_captured() == capture_after(
                old(self).spec_captured(),
                end_entity@,
            ),
            old(self).spec_captured() is None ==> (r.1 matches Some(c) && c@ == end_entity@),
            old(self).spec_captured() is Some ==> r.1 is None,
    {
        let sent = self.slot.offer(end_entity);
        (PinningDecision::Accepted, sent)
    }
}

/// Two offers in a row: the first certificate wins and a later, different
/// certificate does not overwrite it.
pub proof fn lemma_first_capture_wins(first: Seq<u8>, later: Seq<u8>)
    ensures
        capture_after(capture_after(None, first), later) == Some(first),
{
}

/// One observable step of the discovery orchestrator's combined wait.
pub enum DiscoveryEvent {
    /// The throwaway request resolved, successfully or with an error. Either
    /// outcome is irrelevant: only certificate capture matters.
    RequestSettled,
    /// The rendezvous channel yielded the captured certificate.
    CertificateCaptured(Certificate),
    /// The bounded wait ran out without a capture.
    WaitExpired,
}

/// What one discovery attempt ends with.
pub enum DiscoveryOutcome {
    /// The device's certificate, exactly as the TLS layer presented it.
    Captured(Certificate),
    /// The wait resolved only through request-failure paths and the channel
    /// never yielded a certificate: the distinct, actionable error.
    NoCertificateObserved,
}

/// The outcome the orchestrator commits to for a given sequence of events:
/// the first captured certificate if one arrives before the wait expires,
/// otherwise nothing.
pub open spec fn spec_discovery_outcome(events: Seq<DiscoveryEvent>) -> Option<Seq<u8>>
    decreases events.len(),
{
    if events.len() == 0 {
        None
    } else {
        match events[0] {
            DiscoveryEvent::RequestSettled => spec_discovery_outcome(events.drop_first()),
            DiscoveryEvent::CertificateCaptured(c) => Some(c@),
            DiscoveryEvent::WaitExpired => None,
        }
    }
}

/// The orchestrator's decision for a single event: keep waiting when the
/// request merely settled, return the certificate the moment it arrives,
/// and report the no-certificate-observed error when the bounded wait
/// expires.
pub fn discovery_step(event: DiscoveryEvent) -> (r: Option<DiscoveryOutcome>)
    ensures
        match event {
            DiscoveryEvent::RequestSettled => r is None,
            DiscoveryEvent::CertificateCaptured(c) => (r matches Some(
                DiscoveryOutcome::Captured(k),
            ) && k@ == c@),
            DiscoveryEvent::WaitExpired => (r matches Some(o) && o is NoCertificateObserved),
        },
{
    match event {
        DiscoveryEvent::RequestSettled => None,
        DiscoveryEvent::CertificateCaptured(c) => Some(DiscoveryOutcome::Captured(c)),
        DiscoveryEvent::WaitExpired => Some(DiscoveryOutcome::NoCertificateObserved),
    }
}

/// Runs the orchestrator's combined wait over a sequence of observed events,
/// as a simulated handshake harness presents them, and commits to the first
/// event that yields the awaited certificate.
pub fn run_discovery(events: Vec<DiscoveryEvent>) -> (r: DiscoveryOutcome)
    ensures
        match r {
            DiscoveryOutcome::Captured(c) => spec_discovery_outcome(events@) == Some(c@),
            DiscoveryOutcome::NoCertificateObserved => spec_discovery_outcome(events@) is None,
        },
{
    let n = events.len();
    proof {
        assert(events@.skip(0) =~= events@);
    }
    for i in 0..n
        invariant
            n == events@.len(),
            spec_discovery_outcome(events@.skip(i as int)) == spec_discovery_outcome(events@),
    {
        proof {
            assert(events@.skip(i as int)[0] == events@[i as int]);
            assert(events@.skip(i as int).drop_first() =~= events@.skip(i as int + 1));
        }
        let step = discovery_step_ref(&events[i]);
        match step {
            Some(outcome) => {
                return outcome;
            },
            None => {},
        }
    }
    proof {
        assert(events@.skip(n as int).len() == 0);
    }
    DiscoveryOutcome::NoCertificateObserved
}

/// `discovery_step` for a borrowed event, cloning a captured certificate out.
fn discovery_step_ref(event: &DiscoveryEvent) -> (r: Option<DiscoveryOutcome>)
    ensures
        match *event {
            DiscoveryEvent::RequestSettled => r is None,
            DiscoveryEvent::CertificateCaptured(c) => (r matches Some(
                DiscoveryOutcome::Captured(k),
            ) && k@ == c@),
            DiscoveryEvent::WaitExpired => (r matches Some(o) && o is NoCertificateObserved),
        },
{
    match event {
        DiscoveryEvent::RequestSettled => None,
        DiscoveryEvent::CertificateCaptured(c) => Some(DiscoveryOutcome::Captured(c.clone())),
        DiscoveryEvent::WaitExpired => Some(DiscoveryOutcome::NoCertificateObserved),
    }
}

/// A simulated handshake that presents a certificate yields exactly that
/// certificate, independent of whether, or how often, the application-level
/// request settles beforehand.
pub proof fn lemma_capture_returns_presented_certificate(events: Seq<DiscoveryEvent>, i: int)
    requires
        0 <= i < events.len(),
        events[i] is CertificateCaptured,
        forall|j: int| 0 <= j < i ==> events[j] is RequestSettled,
    ensures
        spec_discovery_outcome(events) == Some(events[i]->0@),
    decreases i,
{
    if i == 0 {
    } else {
        assert(events[0] is RequestSettled);
        let rest = events.drop_first();
        assert(rest[i - 1] == events[i]);
        assert(forall|j: int| 0 <= j < i - 1 ==> rest[j] == events[j + 1]);
        lemma_capture_returns_presented_certificate(rest, i - 1);
    }
}

/// A transport that never completes a handshake never yields a certificate:
/// without a capture event, discovery reports the no-certificate-observed
/// outcome rather than a certificate.
pub proof fn lemma_no_capture_reports_no_certificate(events: Seq<DiscoveryEvent>)
    requires
        forall|j: int| 0 <= j < events.len() ==> !(events[j] is CertificateCaptured),
    ensures
        spec_discovery_outcome(events) is None,
    decreases events.len(),
{
    if events.len() == 0 {
    } else {
        assert(!(events[0] is CertificateCaptured));
        let rest = events.drop_first();
        assert(forall|j: int| 0 <= j < rest.len() ==> rest[j] == events[j + 1]);
        lemma_no_capture_reports_no_certificate(rest);
    }
}

} // verus!
