//! The key and the self-signed certificate of one end of a tunnel.
use crate::tunnel::bytewords::CertificateDer;
use crate::tunnel::error::TunnelError;
use vstd::prelude::*;

verus! {

/// The name that certificates are made for, and that a client expects its
/// server's certificate to bear.
pub const CERT_NAME: &'static str = "Qduct";

/// What `rcgen` reports where it cannot make a certificate.
#[verifier::external_type_specification]
#[verifier::external_body]
pub struct ExRcgenError(rcgen::Error);

/// Whether `certificate` is a self-signed certificate, in DER form, that names
/// exactly `names` as its subject's alternative names, and `private_key` is the
/// key that belongs to it, in PKCS#8 form.
pub uninterp spec fn self_signed_for(
    names: Seq<Seq<char>>,
    certificate: Seq<u8>,
    private_key: Seq<u8>,
) -> bool;

/// Calls `rcgen::generate_simple_self_signed` and takes the certificate and the
/// key as bytes.
///
/// Claimed of it: where it succeeds, the certificate is self-signed and made for
/// `names`, and the key belongs to it. Each call makes a new key out of random
/// numbers, so which key, and whether it succeeds at all, is left open. It loads
/// the new key once more, and panics if the random numbers fail just then.
#[verifier::external_body]
fn generate_self_signed(names: Vec<String>) -> (result: Result<(Vec<u8>, Vec<u8>), rcgen::Error>)
    ensures
        result matches Ok(pair) ==> self_signed_for(
            names@.map_values(|name: String| name@),
            pair.0@,
            pair.1@,
        ),
{
    let keypair = rcgen::generate_simple_self_signed(names)?;
    Ok((keypair.cert.der().to_vec(), keypair.signing_key.serialize_der()))
}

/// A certificate and the private key that belongs to it.
pub struct KeyPair {
    pub certificate: CertificateDer,
    /// The private key in PKCS#8 form.
    pub private_key: Vec<u8>,
}

impl KeyPair {
    /// Whether this is a self-signed certificate for [`CERT_NAME`] with its key.
    pub open spec fn valid(&self) -> bool {
        self_signed_for(seq![CERT_NAME@], self.certificate.der@, self.private_key@)
    }
}

/// What becomes of a generated certificate and key, or of the failure to make
/// them.
pub fn keypair_from(generated: Result<(Vec<u8>, Vec<u8>), rcgen::Error>) -> (result: Result<
    KeyPair,
    TunnelError,
>)
    ensures
        match generated {
            Ok(pair) => {
                &&& result is Ok
                &&& result->Ok_0.certificate.der == pair.0
                &&& result->Ok_0.private_key == pair.1
            },
            Err(e) => result == Err::<KeyPair, TunnelError>(TunnelError::KeyGeneration(e)),
        },
{
    match generated {
        Ok((certificate, private_key)) => Ok(
            KeyPair { certificate: CertificateDer { der: certificate }, private_key },
        ),
        Err(e) => Err(TunnelError::KeyGeneration(e)),
    }
}

/// Makes a new key and a self-signed certificate for [`CERT_NAME`].
///
/// Whether there is one depends on the system's random numbers.
pub fn new_keypair() -> (result: Result<KeyPair, TunnelError>)
    ensures
        match result {
            Ok(keypair) => {
                &&& keypair.valid()
                &&& self_signed_for(
                    seq!["Qduct"@],
                    keypair.certificate.der@,
                    keypair.private_key@,
                )
            },
            Err(e) => e is KeyGeneration,
        },
{
    let mut names: Vec<String> = Vec::new();
    names.push(CERT_NAME.to_owned());
    assert(names@.map_values(|name: String| name@) =~= seq![CERT_NAME@]);
    keypair_from(generate_self_signed(names))
}

} // verus!
