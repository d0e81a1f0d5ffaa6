use qduct::tunnel::bytewords::{hash_words, speak};
use qduct::tunnel::keypair::{keypair_from, new_keypair, CERT_NAME};
use qduct::tunnel::{CertificateByteWords, CertificateDer, TunnelError};
use quinn::rustls;
use std::sync::Arc;

fn words(der: &[u8]) -> String {
    CertificateDer { der: der.to_vec() }.get_bytewords()
}

#[test]
fn words_of_an_empty_certificate() {
    assert_eq!(
        words(b""),
        "tissue pocketful snowcap detergent prefer Wilmington befriend bifocals"
    );
}

#[test]
fn words_of_a_short_certificate() {
    assert_eq!(
        words(b"abc"),
        "sentence inferno backward recover optic adviser stagehand underfoot"
    );
    assert_eq!(
        words(&[0, 0, 0]),
        "goldfish outfielder kiwi revenue minnow maverick quota detector"
    );
}

#[test]
fn words_are_those_of_the_hash() {
    let der: Vec<u8> = (0..=255u8).cycle().take(1000).collect();
    let hash = ring::digest::digest(&ring::digest::SHA256, &der);
    assert_eq!(words(&der), hash_words(hash.as_ref()));
}

#[test]
fn there_is_one_word_for_each_compared_byte() {
    for der in [&b""[..], &b"a"[..], &b"another certificate"[..]] {
        let text = words(der);
        assert_eq!(text.split(' ').count(), 8);
        assert!(text.split(' ').all(|word| !word.is_empty()));
    }
}

#[test]
fn different_certificates_have_different_words() {
    assert_ne!(words(b"abc"), words(b"abd"));
    assert_eq!(words(b"abc"), words(b"abc"));
}

#[test]
fn only_the_first_bytes_of_a_hash_are_spoken() {
    let mut hash = [5u8; 32];
    let expected = "adult amulet adult amulet adult amulet adult amulet";
    assert_eq!(hash_words(&hash), expected);
    hash[8] = 6;
    assert_eq!(hash_words(&hash), expected);
    assert_eq!(hash_words(&hash[..8]), expected);
    hash[7] = 6;
    assert_ne!(hash_words(&hash), expected);
}

#[test]
fn the_lists_are_used_in_turn() {
    assert_eq!(
        hash_words(&[0, 0, 255, 255, 1, 1, 0, 255]),
        "aardvark adroitness Zulu Yucatan absurd adviser aardvark Yucatan"
    );
}

#[test]
fn words_are_spoken_with_single_spaces() {
    assert_eq!(speak(&[]), "");
    assert_eq!(speak(&["one"]), "one");
    assert_eq!(speak(&["one", "two", "three"]), "one two three");
}

#[test]
fn no_space_comes_before_the_first_text() {
    assert_eq!(speak(&["", "one"]), "one");
    assert_eq!(speak(&["one", ""]), "one ");
}

#[test]
fn a_new_certificate_bears_the_name() {
    let keypair = new_keypair().unwrap();
    let der = rustls::pki_types::CertificateDer::from(keypair.certificate.der.clone());
    let parsed = rustls::server::ParsedCertificate::try_from(&der).unwrap();
    let name = rustls::pki_types::ServerName::try_from(CERT_NAME).unwrap();
    assert!(rustls::client::verify_server_name(&parsed, &name).is_ok());
    let other = rustls::pki_types::ServerName::try_from("other").unwrap();
    assert!(rustls::client::verify_server_name(&parsed, &other).is_err());
}

#[test]
fn a_new_certificate_belongs_to_its_key() {
    let keypair = new_keypair().unwrap();
    let stranger = new_keypair().unwrap();
    let accepts = |certificate: &CertificateDer, private_key: &Vec<u8>| {
        let provider = Arc::new(rustls::crypto::ring::default_provider());
        let key = rustls::pki_types::PrivatePkcs8KeyDer::from(private_key.clone());
        rustls::ServerConfig::builder_with_provider(provider)
            .with_safe_default_protocol_versions()
            .unwrap()
            .with_no_client_auth()
            .with_single_cert(
                vec![rustls::pki_types::CertificateDer::from(
                    certificate.der.clone(),
                )],
                key.into(),
            )
            .is_ok()
    };
    assert!(accepts(&keypair.certificate, &keypair.private_key));
    assert!(!accepts(&keypair.certificate, &stranger.private_key));
}

#[test]
fn each_certificate_is_new() {
    let first = new_keypair().unwrap();
    let second = new_keypair().unwrap();
    assert_ne!(first.certificate.der, second.certificate.der);
    assert_ne!(first.private_key, second.private_key);
    assert_ne!(
        first.certificate.get_bytewords(),
        second.certificate.get_bytewords()
    );
}

#[test]
fn generated_bytes_are_taken_over() {
    let keypair = keypair_from(Ok((vec![1, 2, 3], vec![4, 5]))).unwrap();
    assert_eq!(keypair.certificate.der, vec![1, 2, 3]);
    assert_eq!(keypair.private_key, vec![4, 5]);
}

#[test]
fn a_failure_to_generate_is_reported() {
    let result = keypair_from(Err(rcgen::Error::KeyGenerationUnavailable));
    assert!(matches!(
        result,
        Err(TunnelError::KeyGeneration(
            rcgen::Error::KeyGenerationUnavailable
        ))
    ));
    assert_eq!(result.err().unwrap().message(), None);
}
