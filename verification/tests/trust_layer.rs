use tega::cert::{Certificate, PinningDecision, PinningError};
use tega::client::{accept_header_value, base_name, base_url, Client};
use tega::discovery::{discovery_step, run_discovery, DiscoveryEvent, DiscoveryOutcome};
use tega::discovery::FetchCertificateVerifier;
use tega::pem_text::{encode_certificate, parse_certificates, repin_captured_certificate};
use tega::pinning::PowerwallVerifier;
use tega::policy::TrustPolicy;
use tega::resolver::{AddressOverride, IpAddress, ResolveError, SocketAddress};

fn sample_cert() -> Certificate {
    Certificate(vec![0x30, 0x82, 0x01, 0x0a, 0xde, 0xad, 0xbe, 0xef])
}

fn other_cert() -> Certificate {
    Certificate(vec![0x30, 0x82, 0x02, 0x0b, 0x01, 0x02, 0x03])
}

fn sample_addr() -> SocketAddress {
    SocketAddress { ip: IpAddress::V4(192, 168, 90, 2), port: 443 }
}

#[test]
fn pinned_accepts_member() {
    let verifier = PowerwallVerifier::new(vec![other_cert(), sample_cert()]);
    assert_eq!(verifier.verify_server_cert(&sample_cert()), PinningDecision::Accepted);
    assert_eq!(verifier.verify_server_cert(&other_cert()), PinningDecision::Accepted);
}

#[test]
fn pinned_rejects_mutated() {
    let pinned = sample_cert();
    let verifier = PowerwallVerifier::new(vec![pinned.clone()]);
    for i in 0..pinned.0.len() {
        let mut mutated = pinned.clone();
        mutated.0[i] ^= 0x01;
        assert_eq!(
            verifier.verify_server_cert(&mutated),
            PinningDecision::Rejected(PinningError::ServerCertificateNotPermitted)
        );
    }
}

#[test]
fn pinned_empty_set_rejects() {
    let verifier = PowerwallVerifier::new(Vec::new());
    assert_eq!(
        verifier.verify_server_cert(&sample_cert()),
        PinningDecision::Rejected(PinningError::ServerCertificateNotPermitted)
    );
    assert_eq!(
        verifier.verify_server_cert(&Certificate(Vec::new())),
        PinningDecision::Rejected(PinningError::ServerCertificateNotPermitted)
    );
}

#[test]
fn discovery_accepts_and_captures_first() {
    let mut verifier = FetchCertificateVerifier::new();
    let (decision, sent) = verifier.verify_server_cert(&sample_cert());
    assert_eq!(decision, PinningDecision::Accepted);
    let sent = sent.expect("first observation must hand the certificate off");
    assert_eq!(sent.0, sample_cert().0);
    // A second invocation with a different certificate accepts but does not
    // capture again: the first certificate wins.
    let (decision, sent) = verifier.verify_server_cert(&other_cert());
    assert_eq!(decision, PinningDecision::Accepted);
    assert!(sent.is_none());
}

#[test]
fn trust_policies_are_not_interchangeable() {
    // The pinned policy rejects a certificate it does not pin; the discovery
    // policy accepts the same certificate. The two are distinct variants and
    // only the discovery one ever hands a certificate off.
    let mut pinned = TrustPolicy::Pinned(PowerwallVerifier::new(vec![other_cert()]));
    let mut discovery = TrustPolicy::Discovery(FetchCertificateVerifier::new());
    let (decision, sent) = pinned.verify_server_cert(&sample_cert());
    assert_eq!(decision, PinningDecision::Rejected(PinningError::ServerCertificateNotPermitted));
    assert!(sent.is_none());
    let (decision, sent) = discovery.verify_server_cert(&sample_cert());
    assert_eq!(decision, PinningDecision::Accepted);
    assert!(sent.is_some());
}

#[test]
fn discovery_step_decisions() {
    assert!(discovery_step(DiscoveryEvent::RequestSettled).is_none());
    match discovery_step(DiscoveryEvent::CertificateCaptured(sample_cert())) {
        Some(DiscoveryOutcome::Captured(c)) => assert_eq!(c.0, sample_cert().0),
        _ => panic!("a captured certificate must end the wait"),
    }
    match discovery_step(DiscoveryEvent::WaitExpired) {
        Some(DiscoveryOutcome::NoCertificateObserved) => {}
        _ => panic!("an expired wait must report no certificate observed"),
    }
}

#[test]
fn orchestrator_returns_presented_certificate() {
    // The request settling (successfully or not) never ends the wait; the
    // captured certificate does, whatever follows it.
    let events = vec![
        DiscoveryEvent::RequestSettled,
        DiscoveryEvent::RequestSettled,
        DiscoveryEvent::CertificateCaptured(sample_cert()),
        DiscoveryEvent::RequestSettled,
        DiscoveryEvent::CertificateCaptured(other_cert()),
    ];
    match run_discovery(events) {
        DiscoveryOutcome::Captured(c) => assert_eq!(c.0, sample_cert().0),
        DiscoveryOutcome::NoCertificateObserved => panic!("the certificate was presented"),
    }
}

#[test]
fn orchestrator_reports_no_certificate_observed() {
    // A transport that never completes a handshake: request failures loop,
    // the bounded wait expires, and the distinct error is reported.
    let events = vec![
        DiscoveryEvent::RequestSettled,
        DiscoveryEvent::RequestSettled,
        DiscoveryEvent::WaitExpired,
        DiscoveryEvent::CertificateCaptured(sample_cert()),
    ];
    match run_discovery(events) {
        DiscoveryOutcome::NoCertificateObserved => {}
        DiscoveryOutcome::Captured(_) => panic!("no certificate arrived before the wait expired"),
    }
}

#[test]
fn address_override_dials_configured_address() {
    let addr = sample_addr();
    let override_entry = AddressOverride::new(String::from("teg"), addr);
    assert_eq!(override_entry.dial_address(&String::from("teg")), Ok(addr));
    assert_eq!(
        override_entry.dial_address(&String::from("example.com")),
        Err(ResolveError::HostNotOverridden)
    );
    // The override dials whatever address was configured, regardless of its
    // value.
    let elsewhere = SocketAddress { ip: IpAddress::V6(0, 0, 0, 0, 0, 0, 0, 1), port: 8443 };
    let override_entry = AddressOverride::new(String::from("teg"), elsewhere);
    assert_eq!(override_entry.dial_address(&String::from("teg")), Ok(elsewhere));
}

#[test]
fn client_wires_trust_layer() {
    let addr = sample_addr();
    let client = Client::new(addr, vec![sample_cert()]);
    assert_eq!(client.base_url_string(), "https://teg");
    assert_eq!(client.status_url(), "https://teg/api/status");
    assert_eq!(client.login_url(), "https://teg/api/login/Basic");
    assert_eq!(client.meters_aggregates_url(), "https://teg/api/meters/aggregates");
    assert_eq!(client.legal_radio_url(), "https://teg/api/legal/radio");
    assert_eq!(client.dial_address(&String::from("teg")), Ok(addr));
    assert_eq!(
        client.dial_address(&String::from("teg.example")),
        Err(ResolveError::HostNotOverridden)
    );
    assert_eq!(client.verify_server_cert(&sample_cert()), PinningDecision::Accepted);
    assert_eq!(
        client.verify_server_cert(&other_cert()),
        PinningDecision::Rejected(PinningError::ServerCertificateNotPermitted)
    );
    assert_eq!(base_name(), "teg");
    assert_eq!(base_url(), "https://teg");
    assert_eq!(accept_header_value(), "application/json; charset=utf-8");
}

#[test]
fn pem_roundtrip_repins_captured_certificate() {
    // Discovery output to pin file and back: the re-parsed certificate is
    // byte-identical and the verifier built from it accepts the original.
    let captured = sample_cert();
    let text = encode_certificate(&captured);
    let rendered = String::from_utf8(text.clone()).expect("certificate text is ASCII");
    assert!(rendered.starts_with("-----BEGIN CERTIFICATE-----"));
    let reparsed = parse_certificates(&text).expect("the encoder's output parses");
    assert_eq!(reparsed.len(), 1);
    assert_eq!(reparsed[0].0, captured.0);

    let verifier = repin_captured_certificate(&captured);
    assert_eq!(verifier.verify_server_cert(&captured), PinningDecision::Accepted);
    assert_eq!(
        verifier.verify_server_cert(&other_cert()),
        PinningDecision::Rejected(PinningError::ServerCertificateNotPermitted)
    );
}

#[test]
fn pem_parse_handles_other_input() {
    assert_eq!(parse_certificates(&[]).expect("empty input is no error").len(), 0);
    let noise = b"not a pem file at all";
    let parsed = parse_certificates(noise).expect("input without sections yields nothing");
    assert_eq!(parsed.len(), 0);
}

#[test]
fn error_messages_are_distinguishable() {
    assert_eq!(
        PinningError::ServerCertificateNotPermitted.message(),
        "server certificate not permitted"
    );
    assert_eq!(
        tega::pem_text::PemParseError::Malformed.message(),
        "malformed certificate file content"
    );
}
