//! Whether the certificate of the other end is accepted.
use crate::CommonArgs;
use crate::tunnel::bytewords::{CertificateByteWords, CertificateDer};
use vstd::prelude::*;

verus! {

/// What the user reads above the words for a certificate.
pub const PROMPT: &'static str = "Please verify the certificate words with your peer:";

/// What is said of a certificate that the user did not confirm.
pub const DENIED: &'static str = "Verification denied by user";

/// What has to happen before a certificate is accepted.
#[derive(Debug)]
pub enum Verification {
    /// Nothing; the words are only shown.
    Trusted { words: String },
    /// The user is asked, below a heading, whether the words are those of the
    /// peer. `default` is the answer of a user who gives none.
    Ask { heading: &'static str, words: String, default: bool },
}

/// Why a certificate is not accepted; `E` says what failed.
#[derive(Debug)]
pub enum VerificationError<E> {
    /// The user could not be asked.
    Prompt(E),
    /// The user did not confirm the words.
    Denied,
}

impl VerificationError<String> {
    /// What is said of the certificate, where a failure to ask is given by its
    /// text.
    pub fn message(&self) -> (text: String)
        ensures
            text@ == match *self {
                VerificationError::Prompt(failure) => failure@,
                VerificationError::Denied => DENIED@,
            },
            *self is Denied ==> text@ == "Verification denied by user"@,
    {
        match self {
            VerificationError::Prompt(failure) => failure.clone(),
            VerificationError::Denied => DENIED.to_owned(),
        }
    }
}

/// Why a connection is not made.
#[derive(Clone, Copy, Debug, PartialEq, Eq, Structural)]
pub enum CertificateError {
    /// Nobody vouches for the certificate.
    UnknownIssuer,
}

/// What comes of verifying a certificate: a user who trusts every peer accepts
/// it, another one has to confirm its words.
pub open spec fn verification_result<E>(trust: bool, answer: Result<bool, E>) -> Result<
    (),
    VerificationError<E>,
> {
    if trust {
        Ok(())
    } else {
        match answer {
            Ok(true) => Ok(()),
            Ok(false) => Err(VerificationError::Denied),
            Err(e) => Err(VerificationError::Prompt(e)),
        }
    }
}

/// What the peer is answered whose certificate was verified with `result`.
pub open spec fn verdict<E>(result: Result<(), VerificationError<E>>) -> Result<
    (),
    CertificateError,
> {
    match result {
        Ok(()) => Ok(()),
        Err(_) => Err(CertificateError::UnknownIssuer),
    }
}

/// Accepts a certificate if the user does, or if the user trusts every peer.
#[derive(Clone, Copy, Debug)]
pub struct InteractiveCertificateVerifier {
    pub trust: bool,
}

impl InteractiveCertificateVerifier {
    pub fn new(common: &CommonArgs) -> (verifier: InteractiveCertificateVerifier)
        ensures
            verifier.trust == common.trust,
    {
        InteractiveCertificateVerifier { trust: common.trust }
    }

    /// What has to happen before `certificate` is accepted. The words for it are
    /// shown in any case; the user is asked unless every peer is trusted, and
    /// gives no consent by not answering.
    pub fn begin(&self, certificate: &CertificateDer) -> (verification: Verification)
        requires
            certificate.spec_der().len() < 0x2000_0000_0000_0000,
        ensures
            match verification {
                Verification::Trusted { words } => {
                    &&& self.trust
                    &&& crate::tunnel::bytewords::speaks_for(words@, certificate.spec_der())
                    &&& crate::tunnel::bytewords::heard(words@) == crate::tunnel::bytewords::sha256(
                        certificate.der@,
                    ).take(8)
                },
                Verification::Ask { heading, words, default } => {
                    &&& !self.trust
                    &&& heading@ == PROMPT@
                    &&& heading@ == "Please verify the certificate words with your peer:"@
                    &&& crate::tunnel::bytewords::speaks_for(words@, certificate.spec_der())
                    &&& crate::tunnel::bytewords::heard(words@) == crate::tunnel::bytewords::sha256(
                        certificate.der@,
                    ).take(8)
                    &&& !default
                },
            },
    {
        let words = certificate.get_bytewords();
        if self.trust {
            Verification::Trusted { words }
        } else {
            Verification::Ask { heading: PROMPT, words, default: false }
        }
    }

    /// Whether the certificate is accepted. `answer` is what came of asking the
    /// user; it is not looked at where every peer is trusted.
    pub fn verify<E>(&self, answer: Result<bool, E>) -> (result: Result<(), VerificationError<E>>)
        ensures
            result == verification_result(self.trust, answer),
            result is Ok <==> self.trust || answer == Ok::<bool, E>(true),
            result == Err::<(), VerificationError<E>>(VerificationError::Denied) <==> !self.trust
                && answer == Ok::<bool, E>(false),
            !self.trust && answer is Err ==> result == Err::<(), VerificationError<E>>(
                VerificationError::Prompt(answer->Err_0),
            ),
    {
        if self.trust {
            return Ok(());
        }
        match answer {
            Ok(confirmed) => if confirmed {
                Ok(())
            } else {
                Err(VerificationError::Denied)
            },
            Err(e) => Err(VerificationError::Prompt(e)),
        }
    }

    /// What a client answers to a server whose certificate was verified with
    /// this result.
    pub fn verify_server_cert<E>(result: &Result<(), VerificationError<E>>) -> (answer: Result<
        (),
        CertificateError,
    >)
        ensures
            answer == verdict(*result),
            answer is Ok <==> *result is Ok,
    {
        match result {
            Ok(()) => Ok(()),
            Err(_) => Err(CertificateError::UnknownIssuer),
        }
    }

    /// What a server answers to a client whose certificate was verified with
    /// this result.
    pub fn verify_client_cert<E>(result: &Result<(), VerificationError<E>>) -> (answer: Result<
        (),
        CertificateError,
    >)
        ensures
            answer == verdict(*result),
            answer is Ok <==> *result is Ok,
    {
        match result {
            Ok(()) => Ok(()),
            Err(_) => Err(CertificateError::UnknownIssuer),
        }
    }
}

/// A peer is let in if and only if every peer is trusted or the user has
/// confirmed the words for its certificate; to all others its issuer is unknown.
pub proof fn law_only_confirmed_peers_are_let_in<E>(trust: bool, answer: Result<bool, E>)
    ensures
        verdict(verification_result(trust, answer)) is Ok <==> trust || answer
            == Ok::<bool, E>(true),
        verdict(verification_result(trust, answer)) is Err ==> verdict(
            verification_result(trust, answer),
        ) == Err::<(), CertificateError>(CertificateError::UnknownIssuer),
{
}

/// Whoever does not trust every peer learns why a certificate was not accepted: by
/// a refusal exactly where the user refused, and by the failure itself where the
/// user could not be asked. A peer is let in exactly if its certificate is accepted.
pub proof fn law_reasons_are_those_of_the_answer<E>(
    trust: bool,
    answer: Result<bool, E>,
    failure: E,
)
    ensures
        verification_result(trust, answer) == Err::<(), VerificationError<E>>(
            VerificationError::Denied,
        ) <==> !trust && answer == Ok::<bool, E>(false),
        verification_result(trust, answer) == Err::<(), VerificationError<E>>(
            VerificationError::Prompt(failure),
        ) <==> !trust && answer == Err::<bool, E>(failure),
        verdict(verification_result(trust, answer)) is Ok <==> verification_result(
            trust,
            answer,
        ) is Ok,
{
}

} // verus!
