use qduct::tunnel::endpoint::{ShutdownStep, TransportSettings};
use qduct::tunnel::keypair::{KeyPair, CERT_NAME};
use qduct::tunnel::trust::{
    CertificateError, InteractiveCertificateVerifier, Verification, VerificationError,
};
use qduct::tunnel::{CertificateByteWords, CertificateDer, Client, Server, SocketAddr};
use qduct::CommonArgs;

const LOCALHOST: SocketAddr = SocketAddr::V4 {
    ipv4: 0x7f00_0001,
    port: 4000,
};

const LOCALHOST_V6: SocketAddr = SocketAddr::V6 {
    ipv6: 1,
    port: 4000,
    flowinfo: 3,
    scope_id: 7,
};

const ASKING: CommonArgs = CommonArgs { trust: false };

const TRUSTING: CommonArgs = CommonArgs { trust: true };

fn keypair() -> KeyPair {
    KeyPair {
        certificate: CertificateDer {
            der: b"abc".to_vec(),
        },
        private_key: b"key".to_vec(),
    }
}

#[test]
fn a_server_forwards_from_an_address_of_the_same_kind() {
    assert_eq!(
        Server::udp_bind_addr(LOCALHOST),
        SocketAddr::V4 { ipv4: 0, port: 0 }
    );
    assert_eq!(
        Server::udp_bind_addr(LOCALHOST_V6),
        SocketAddr::V6 {
            ipv6: 0,
            port: 0,
            flowinfo: 0,
            scope_id: 0
        }
    );
}

#[test]
fn a_server_is_set_up() {
    let server = Server::with_keypair(LOCALHOST, LOCALHOST_V6, ASKING, keypair());
    assert_eq!(server.quic_addr, LOCALHOST);
    assert_eq!(server.udp_destination, LOCALHOST_V6);
    assert_eq!(server.udp_addr, Server::udp_bind_addr(LOCALHOST_V6));
    assert_eq!(server.certificate.der, b"abc");
    assert_eq!(server.private_key, b"key");
    assert!(!server.verifier.trust);
    assert_eq!(
        server.transport,
        TransportSettings {
            max_concurrent_uni_streams: 1024,
            keep_alive_interval: Some(25),
            max_idle_timeout: 120,
        }
    );
}

#[test]
fn a_server_has_a_certificate_of_its_own() {
    let server = Server::try_new(LOCALHOST, LOCALHOST, TRUSTING).unwrap();
    let other = Server::try_new(LOCALHOST, LOCALHOST, TRUSTING).unwrap();
    assert!(server.verifier.trust);
    assert_ne!(
        server.certificate.get_bytewords(),
        other.certificate.get_bytewords()
    );
}

#[test]
fn a_server_presets_the_destination() {
    let server = Server::with_keypair(LOCALHOST, LOCALHOST_V6, ASKING, keypair());
    assert_eq!(server.accept().preset_udp_destination, Some(LOCALHOST_V6));
    assert_eq!(server.accept().preset_udp_destination, Some(LOCALHOST_V6));
}

#[test]
fn a_client_is_set_up() {
    let client = Client::with_keypair(LOCALHOST, TRUSTING, keypair());
    assert_eq!(client.udp_sink, LOCALHOST);
    assert_eq!(
        client.endpoint_addr,
        SocketAddr::V6 {
            ipv6: 0,
            port: 0,
            flowinfo: 0,
            scope_id: 0
        }
    );
    assert_eq!(client.certificate.der, b"abc");
    assert_eq!(client.private_key, b"key");
    assert!(client.verifier.trust);
    assert_eq!(
        client.transport,
        TransportSettings {
            max_concurrent_uni_streams: 1024,
            keep_alive_interval: None,
            max_idle_timeout: 120,
        }
    );
}

#[test]
fn a_client_has_a_certificate_of_its_own() {
    let client = Client::try_new(LOCALHOST, ASKING).unwrap();
    let other = Client::try_new(LOCALHOST, ASKING).unwrap();
    assert!(!client.verifier.trust);
    assert_ne!(client.certificate.der, other.certificate.der);
}

#[test]
fn a_client_connects_by_name_and_without_a_destination() {
    let client = Client::with_keypair(LOCALHOST, ASKING, keypair());
    let connect = client.connect(LOCALHOST_V6);
    assert_eq!(connect.remote_server, LOCALHOST_V6);
    assert_eq!(connect.server_name, "Qduct");
    assert_eq!(connect.server_name, CERT_NAME);
    assert_eq!(connect.tunnel.preset_udp_destination, None);
}

#[test]
fn the_ends_fit_together() {
    let server = Server::with_keypair(LOCALHOST, LOCALHOST, ASKING, keypair());
    let client = Client::with_keypair(LOCALHOST, ASKING, keypair());
    assert_eq!(
        server.transport.max_idle_timeout,
        client.transport.max_idle_timeout
    );
    assert!(server.transport.keep_alive_interval.unwrap() < client.transport.max_idle_timeout);
}

fn is_orderly(steps: &[ShutdownStep]) -> bool {
    match steps {
        [ShutdownStep::CancelTunnels, ShutdownStep::CloseEndpoint { code: 0, reason }, ShutdownStep::WaitIdle] => {
            reason.is_empty()
        }
        _ => false,
    }
}

#[test]
fn ends_are_shut_down_in_order() {
    let server = Server::with_keypair(LOCALHOST, LOCALHOST, ASKING, keypair());
    assert!(is_orderly(&server.shutdown()));
    let client = Client::with_keypair(LOCALHOST, ASKING, keypair());
    assert!(is_orderly(&client.shutdown()));
}

#[test]
fn ends_show_their_own_certificate_alone() {
    let server = Server::with_keypair(LOCALHOST, LOCALHOST, ASKING, keypair());
    let handshake = server.handshake();
    assert_eq!(handshake.chain.len(), 1);
    assert_eq!(handshake.chain[0].der, b"abc");
    assert_eq!(handshake.private_key, b"key");
    assert!(!handshake.verifier.trust);
    let client = Client::with_keypair(LOCALHOST, TRUSTING, keypair());
    let handshake = client.handshake();
    assert_eq!(handshake.chain.len(), 1);
    assert_eq!(handshake.chain[0].der, b"abc");
    assert_eq!(handshake.private_key, b"key");
    assert!(handshake.verifier.trust);
}

#[test]
fn the_words_asked_for_are_the_words_told() {
    let server = Server::try_new(LOCALHOST, LOCALHOST, ASKING).unwrap();
    let client = Client::try_new(LOCALHOST, ASKING).unwrap();
    let told = server.certificate.get_bytewords();
    match client.verifier.begin(&server.handshake().chain[0]) {
        Verification::Ask { words, .. } => assert_eq!(words, told),
        Verification::Trusted { .. } => panic!("nobody was asked"),
    }
}

#[test]
fn the_user_is_asked_for_the_words() {
    let verifier = InteractiveCertificateVerifier::new(&ASKING);
    let certificate = keypair().certificate;
    match verifier.begin(&certificate) {
        Verification::Ask {
            heading,
            words,
            default,
        } => {
            assert_eq!(
                heading,
                "Please verify the certificate words with your peer:"
            );
            assert_eq!(
                words,
                "sentence inferno backward recover optic adviser stagehand underfoot"
            );
            assert!(!default);
        }
        Verification::Trusted { .. } => panic!("nobody was asked"),
    }
}

#[test]
fn a_trusting_user_is_shown_the_words() {
    let verifier = InteractiveCertificateVerifier::new(&TRUSTING);
    let certificate = keypair().certificate;
    match verifier.begin(&certificate) {
        Verification::Trusted { words } => assert_eq!(words, certificate.get_bytewords()),
        Verification::Ask { .. } => panic!("a trusting user was asked"),
    }
}

#[test]
fn a_confirmed_certificate_is_accepted() {
    let verifier = InteractiveCertificateVerifier::new(&ASKING);
    let result = verifier.verify::<String>(Ok(true));
    assert!(result.is_ok());
    assert_eq!(
        InteractiveCertificateVerifier::verify_server_cert(&result),
        Ok(())
    );
    assert_eq!(
        InteractiveCertificateVerifier::verify_client_cert(&result),
        Ok(())
    );
}

#[test]
fn a_denied_certificate_is_refused() {
    let verifier = InteractiveCertificateVerifier::new(&ASKING);
    let result = verifier.verify::<String>(Ok(false));
    assert!(matches!(result, Err(VerificationError::Denied)));
    assert_eq!(
        result.as_ref().unwrap_err().message(),
        "Verification denied by user"
    );
    assert_eq!(
        InteractiveCertificateVerifier::verify_server_cert(&result),
        Err(CertificateError::UnknownIssuer)
    );
    assert_eq!(
        InteractiveCertificateVerifier::verify_client_cert(&result),
        Err(CertificateError::UnknownIssuer)
    );
}

#[test]
fn a_certificate_is_refused_if_nobody_can_be_asked() {
    let verifier = InteractiveCertificateVerifier::new(&ASKING);
    let result = verifier.verify(Err("no terminal"));
    assert!(matches!(
        result,
        Err(VerificationError::Prompt("no terminal"))
    ));
    assert_eq!(
        InteractiveCertificateVerifier::verify_server_cert(&result),
        Err(CertificateError::UnknownIssuer)
    );
}

#[test]
fn a_failure_to_ask_speaks_for_itself() {
    let error = VerificationError::Prompt("no terminal".to_string());
    assert_eq!(error.message(), "no terminal");
}

#[test]
fn a_trusting_user_accepts_everything() {
    let verifier = InteractiveCertificateVerifier::new(&TRUSTING);
    for answer in [Ok(true), Ok(false), Err("no terminal")] {
        assert!(verifier.verify(answer).is_ok());
    }
}
