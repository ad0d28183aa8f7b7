//! Handshake admission: a peer's certificate must be signed, issued by the
//! expected authority, valid, not revoked, cryptographically verified and
//! within its validity window.

use vstd::prelude::*;

use crate::crypto::MLDSA65_SIGNATURE_LEN;
use crate::identity::ca::self_test_outcome;
use crate::identity::ca::sig_bounded;
use crate::identity::ca::verify_problem;
use crate::identity::ca::CertificateAuthority;
use crate::identity::certificate::signed_error;
use crate::identity::certificate::valid_at;
use crate::identity::certificate::Certificate;
use crate::identity::certificate::CertificateError;
use crate::identity::revocation::RevocationList;
use crate::text::chars_of;
use crate::text::is_blank;
use crate::text::push_str;
use crate::text::str_to_string;
use crate::text::string_from_chars;
use crate::text::trim;

verus! {

/// Handshake rejections.
#[derive(Debug, Clone, PartialEq, Eq)]
#[non_exhaustive]
pub enum HandshakeError {
    RevokedActor,
    InvalidCertificate(String),
    CertificateNotCurrentlyValid,
    CryptographicVerificationFailed,
    InvalidIssuer,
    MissingSignature,
}

/// A handshake rejection as a mathematical value.
pub enum HandshakeFailure {
    RevokedActor,
    InvalidCertificate(Seq<char>),
    CertificateNotCurrentlyValid,
    CryptographicVerificationFailed,
    InvalidIssuer,
    MissingSignature,
}

impl View for HandshakeError {
    type V = HandshakeFailure;

    open spec fn view(&self) -> HandshakeFailure {
        match self {
            HandshakeError::RevokedActor => HandshakeFailure::RevokedActor,
            HandshakeError::InvalidCertificate(s) => HandshakeFailure::InvalidCertificate(s@),
            HandshakeError::CertificateNotCurrentlyValid => HandshakeFailure::CertificateNotCurrentlyValid,
            HandshakeError::CryptographicVerificationFailed => HandshakeFailure::CryptographicVerificationFailed,
            HandshakeError::InvalidIssuer => HandshakeFailure::InvalidIssuer,
            HandshakeError::MissingSignature => HandshakeFailure::MissingSignature,
        }
    }
}

impl HandshakeError {
    pub open spec fn code_text(&self) -> Seq<char> {
        match self {
            HandshakeError::RevokedActor => "HANDSHAKE_REVOKED_ACTOR"@,
            HandshakeError::InvalidCertificate(_) => "HANDSHAKE_INVALID_CERTIFICATE"@,
            HandshakeError::CertificateNotCurrentlyValid => "HANDSHAKE_CERTIFICATE_NOT_CURRENTLY_VALID"@,
            HandshakeError::CryptographicVerificationFailed => "HANDSHAKE_CRYPTOGRAPHIC_VERIFICATION_FAILED"@,
            HandshakeError::InvalidIssuer => "HANDSHAKE_INVALID_ISSUER"@,
            HandshakeError::MissingSignature => "HANDSHAKE_MISSING_SIGNATURE"@,
        }
    }

    /// Stable symbolic error code for logs and telemetry.
    pub fn code(&self) -> (r: &'static str)
        ensures
            r@ == self.code_text(),
    {
        match self {
            HandshakeError::RevokedActor => "HANDSHAKE_REVOKED_ACTOR",
            HandshakeError::InvalidCertificate(_) => "HANDSHAKE_INVALID_CERTIFICATE",
            HandshakeError::CertificateNotCurrentlyValid => "HANDSHAKE_CERTIFICATE_NOT_CURRENTLY_VALID",
            HandshakeError::CryptographicVerificationFailed => "HANDSHAKE_CRYPTOGRAPHIC_VERIFICATION_FAILED",
            HandshakeError::InvalidIssuer => "HANDSHAKE_INVALID_ISSUER",
            HandshakeError::MissingSignature => "HANDSHAKE_MISSING_SIGNATURE",
        }
    }

    pub open spec fn message_text(&self) -> Seq<char> {
        match self {
            HandshakeError::RevokedActor => "handshake rejected: actor certificate is revoked"@,
            HandshakeError::InvalidCertificate(reason) => "handshake rejected: certificate validation failed: "@
                + reason@,
            HandshakeError::CertificateNotCurrentlyValid => "handshake rejected: certificate is not currently valid"@,
            HandshakeError::CryptographicVerificationFailed => "handshake rejected: certificate cryptographic verification failed"@,
            HandshakeError::InvalidIssuer => "handshake rejected: certificate issuer is invalid"@,
            HandshakeError::MissingSignature => "handshake rejected: certificate signature is missing"@,
        }
    }

    /// Human-readable description of the rejection.
    pub fn message(&self) -> (r: String)
        ensures
            r@ == self.message_text(),
    {
        match self {
            HandshakeError::RevokedActor => str_to_string("handshake rejected: actor certificate is revoked"),
            HandshakeError::InvalidCertificate(reason) => {
                let mut out: Vec<char> = Vec::new();
                push_str(&mut out, "handshake rejected: certificate validation failed: ");
                push_str(&mut out, reason.as_str());
                string_from_chars(&out)
            },
            HandshakeError::CertificateNotCurrentlyValid => str_to_string("handshake rejected: certificate is not currently valid"),
            HandshakeError::CryptographicVerificationFailed => str_to_string("handshake rejected: certificate cryptographic verification failed"),
            HandshakeError::InvalidIssuer => str_to_string("handshake rejected: certificate issuer is invalid"),
            HandshakeError::MissingSignature => str_to_string("handshake rejected: certificate signature is missing"),
        }
    }
}

/// How a certificate error is reported: a missing signature and issuer
/// problems keep their meaning, anything else carries the error's code.
pub open spec fn mapped_error(e: CertificateError) -> HandshakeFailure {
    match e {
        CertificateError::EmptySignature => HandshakeFailure::MissingSignature,
        CertificateError::EmptyIssuer => HandshakeFailure::InvalidIssuer,
        CertificateError::InvalidIssuer => HandshakeFailure::InvalidIssuer,
        _ => HandshakeFailure::InvalidCertificate(e.code_text()),
    }
}

/// Maps a certificate error to a handshake rejection.
pub fn map_certificate_error(error: CertificateError) -> (r: HandshakeError)
    ensures
        r@ == mapped_error(error),
{
    match error {
        CertificateError::EmptySignature => HandshakeError::MissingSignature,
        CertificateError::EmptyIssuer => HandshakeError::InvalidIssuer,
        CertificateError::InvalidIssuer => HandshakeError::InvalidIssuer,
        other => HandshakeError::InvalidCertificate(str_to_string(other.code())),
    }
}

/// Whether the revocation list holds the actor.
pub open spec fn is_revoked_in(crl: RevocationList, actor_id: Seq<char>) -> bool {
    crate::identity::revocation::actor_id_error(actor_id) is None && crl.key_seq().contains(actor_id)
}

/// The checks made before the cryptographic one, in order: signature
/// present, both issuers present and equal, the signed certificate valid,
/// the actor not revoked.
pub open spec fn precheck_failure(cert: Certificate, ca: CertificateAuthority, crl: RevocationList) -> Option<
    HandshakeFailure,
> {
    if trim(cert.signature@).len() == 0 {
        Some(HandshakeFailure::MissingSignature)
    } else if trim(cert.issuer@).len() == 0 || trim(ca.issuer@).len() == 0 || cert.issuer@ != ca.issuer@ {
        Some(HandshakeFailure::InvalidIssuer)
    } else if signed_error(cert) is Some {
        Some(mapped_error(signed_error(cert)->0))
    } else if is_revoked_in(crl, cert.actor_id@) {
        Some(HandshakeFailure::RevokedActor)
    } else {
        None
    }
}

/// The authority's verification accepts the certificate (for some outcome of
/// its key self-test).
pub open spec fn crypto_accepts(ca: CertificateAuthority, cert: Certificate) -> bool {
    exists|ts: Option<Seq<u8>>|
        sig_bounded(ts) && (#[trigger] verify_problem(ca, cert, self_test_outcome(ca, ts))) is None
}

/// The authority's verification rejects the certificate (for some outcome of
/// its key self-test).
pub open spec fn crypto_rejects(ca: CertificateAuthority, cert: Certificate) -> bool {
    exists|ts: Option<Seq<u8>>|
        sig_bounded(ts) && (#[trigger] verify_problem(ca, cert, self_test_outcome(ca, ts))) is Some
}

/// What the shared checks return: a precheck failure; or, past them, the
/// cryptographic verification's verdict.
pub open spec fn common_outcome(
    r: Result<(), HandshakeError>,
    cert: Certificate,
    ca: CertificateAuthority,
    crl: RevocationList,
) -> bool {
    match precheck_failure(cert, ca, crl) {
        Some(f) => r is Err && r->Err_0@ == f,
        None => match r {
            Ok(()) => crypto_accepts(ca, cert),
            Err(e) => e@ == HandshakeFailure::CryptographicVerificationFailed && crypto_rejects(ca, cert),
        },
    }
}

fn verify_handshake_common(cert: &Certificate, ca: &CertificateAuthority, crl: &RevocationList) -> (r:
    Result<(), HandshakeError>)
    requires
        crl.wf(),
    ensures
        common_outcome(r, *cert, *ca, *crl),
{
    if is_blank(&chars_of(cert.signature.as_str())) {
        return Err(HandshakeError::MissingSignature);
    }
    if is_blank(&chars_of(cert.issuer.as_str())) {
        return Err(HandshakeError::InvalidIssuer);
    }
    if is_blank(&chars_of(ca.issuer.as_str())) {
        return Err(HandshakeError::InvalidIssuer);
    }
    if cert.issuer != ca.issuer {
        return Err(HandshakeError::InvalidIssuer);
    }
    if let Err(e) = cert.validate_signed() {
        return Err(map_certificate_error(e));
    }
    if crl.is_revoked(cert.actor_id.as_str()) {
        return Err(HandshakeError::RevokedActor);
    }
    match ca.verify_certificate_detailed(cert) {
        Ok(()) => Ok(()),
        Err(_) => Err(HandshakeError::CryptographicVerificationFailed),
    }
}

/// Admits a certificate at an explicit time: the shared checks, then the
/// validity window at `unix_time`.
pub fn verify_handshake_detailed_at(
    cert: &Certificate,
    ca: &CertificateAuthority,
    crl: &RevocationList,
    unix_time: u64,
) -> (r: Result<(), HandshakeError>)
    requires
        crl.wf(),
    ensures
        match precheck_failure(*cert, *ca, *crl) {
            Some(f) => r is Err && r->Err_0@ == f,
            None => match r {
                Ok(()) => crypto_accepts(*ca, *cert) && valid_at(*cert, unix_time),
                Err(e) => (e@ == HandshakeFailure::CryptographicVerificationFailed && crypto_rejects(*ca, *cert))
                    || (e@ == HandshakeFailure::CertificateNotCurrentlyValid && crypto_accepts(*ca, *cert)
                    && !valid_at(*cert, unix_time)),
            },
        },
{
    if let Err(e) = verify_handshake_common(cert, ca, crl) {
        return Err(e);
    }
    if !cert.is_valid_at(unix_time) {
        return Err(HandshakeError::CertificateNotCurrentlyValid);
    }
    Ok(())
}

/// Admits a certificate at the current time: the shared checks, then the
/// validity window at the time read (a clock failure is reported as an
/// invalid certificate).
pub fn verify_handshake_detailed(cert: &Certificate, ca: &CertificateAuthority, crl: &RevocationList) -> (r:
    Result<(), HandshakeError>)
    requires
        crl.wf(),
    ensures
        match precheck_failure(*cert, *ca, *crl) {
            Some(f) => r is Err && r->Err_0@ == f,
            None => match r {
                Ok(()) => crypto_accepts(*ca, *cert) && exists|now: u64| #[trigger] valid_at(*cert, now),
                Err(e) => (e@ == HandshakeFailure::CryptographicVerificationFailed && crypto_rejects(*ca, *cert))
                    || (crypto_accepts(*ca, *cert) && (e@ == mapped_error(CertificateError::TimeError) || (e@
                    == HandshakeFailure::CertificateNotCurrentlyValid && exists|now: u64| !#[trigger] valid_at(*cert, now)))),
            },
        },
{
    if let Err(e) = verify_handshake_common(cert, ca, crl) {
        return Err(e);
    }
    let valid = match cert.is_currently_valid() {
        Ok(v) => v,
        Err(e) => return Err(map_certificate_error(e)),
    };
    if !valid {
        return Err(HandshakeError::CertificateNotCurrentlyValid);
    }
    Ok(())
}

/// Whether `verify_handshake_detailed` admits the certificate.
pub fn verify_handshake(cert: &Certificate, ca: &CertificateAuthority, crl: &RevocationList) -> (r: bool)
    requires
        crl.wf(),
    ensures
        r ==> precheck_failure(*cert, *ca, *crl) is None && crypto_accepts(*ca, *cert) && exists|now: u64|
            #[trigger] valid_at(*cert, now),
        precheck_failure(*cert, *ca, *crl) is Some ==> !r,
{
    verify_handshake_detailed(cert, ca, crl).is_ok()
}

} // verus!
