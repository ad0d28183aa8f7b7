//! Certificate handshake verification against a CA and a revocation list.

use aoxcore::identity::ca::CertificateAuthority;
use aoxcore::identity::certificate::Certificate;
use aoxcore::identity::certificate::CertificateError;
use aoxcore::identity::handshake::map_certificate_error;
use aoxcore::identity::handshake::verify_handshake;
use aoxcore::identity::handshake::verify_handshake_detailed;
use aoxcore::identity::handshake::verify_handshake_detailed_at;
use aoxcore::identity::handshake::HandshakeError;
use aoxcore::identity::revocation::RevocationList;
use aoxcore::identity::revocation::RevocationReason;

fn sample_certificate() -> Certificate {
    Certificate::new_unsigned(
        "AOXC-0001-MAIN".to_string(),
        "AOXC-VAL-EU-3F7A9C21D4E8B7AA-K9".to_string(),
        "VAL".to_string(),
        "EU".to_string(),
        "A1B2C3D4".to_string(),
        1_700_000_000,
        1_800_000_000,
    )
}

fn sample_signed_certificate(ca: &CertificateAuthority) -> Certificate {
    ca.sign_certificate(sample_certificate())
        .expect("certificate signing must succeed")
}

#[test]
fn handshake_accepts_valid_signed_certificate() {
    let ca = CertificateAuthority::new("AOXC-ROOT-CA").expect("authority creation must succeed");
    let cert = sample_signed_certificate(&ca);
    let crl = RevocationList::new();

    let result = verify_handshake_detailed(&cert, &ca, &crl);

    assert!(result.is_ok());
}

#[test]
fn handshake_boolean_wrapper_matches_detailed_success_path() {
    let ca = CertificateAuthority::new("AOXC-ROOT-CA").expect("authority creation must succeed");
    let cert = sample_signed_certificate(&ca);
    let crl = RevocationList::new();

    assert!(verify_handshake(&cert, &ca, &crl));
}

#[test]
fn handshake_rejects_missing_signature() {
    let ca = CertificateAuthority::new("AOXC-ROOT-CA").expect("authority creation must succeed");
    let cert = sample_certificate();
    let crl = RevocationList::new();

    let result = verify_handshake_detailed(&cert, &ca, &crl);

    assert_eq!(result, Err(HandshakeError::MissingSignature));
}

#[test]
fn handshake_rejects_empty_issuer() {
    let ca = CertificateAuthority::new("AOXC-ROOT-CA").expect("authority creation must succeed");
    let mut cert = sample_certificate();
    cert.signature = "A1B2".to_string();

    let crl = RevocationList::new();
    let result = verify_handshake_detailed(&cert, &ca, &crl);

    assert_eq!(result, Err(HandshakeError::InvalidIssuer));
}

#[test]
fn handshake_rejects_issuer_mismatch_before_crypto_verification() {
    let ca = CertificateAuthority::new("AOXC-ROOT-CA").expect("authority creation must succeed");
    let mut cert = sample_signed_certificate(&ca);
    cert.issuer = "OTHER-CA".to_string();

    let crl = RevocationList::new();
    let result = verify_handshake_detailed(&cert, &ca, &crl);

    assert_eq!(result, Err(HandshakeError::InvalidIssuer));
}

#[test]
fn handshake_rejects_revoked_actor() {
    let ca = CertificateAuthority::new("AOXC-ROOT-CA").expect("authority creation must succeed");
    let cert = sample_signed_certificate(&ca);

    let mut crl = RevocationList::new();
    crl.revoke(&cert.actor_id, RevocationReason::KeyCompromise);

    let result = verify_handshake_detailed(&cert, &ca, &crl);

    assert_eq!(result, Err(HandshakeError::RevokedActor));
}

#[test]
fn handshake_rejects_cryptographic_verification_failure() {
    let signing_ca = CertificateAuthority::new("AOXC-ROOT-CA").expect("authority creation must succeed");
    let verifying_ca = CertificateAuthority::new("AOXC-ROOT-CA").expect("authority creation must succeed");
    let cert = sample_signed_certificate(&signing_ca);
    let crl = RevocationList::new();

    let result = verify_handshake_detailed(&cert, &verifying_ca, &crl);

    assert_eq!(
        result,
        Err(HandshakeError::CryptographicVerificationFailed)
    );
}

#[test]
fn handshake_rejects_certificate_not_currently_valid_at_explicit_time() {
    let ca = CertificateAuthority::new("AOXC-ROOT-CA").expect("authority creation must succeed");
    let cert = sample_signed_certificate(&ca);
    let crl = RevocationList::new();

    let result = verify_handshake_detailed_at(&cert, &ca, &crl, 1_900_000_000);

    assert_eq!(result, Err(HandshakeError::CertificateNotCurrentlyValid));
}

#[test]
fn handshake_detailed_at_accepts_valid_explicit_time() {
    let ca = CertificateAuthority::new("AOXC-ROOT-CA").expect("authority creation must succeed");
    let cert = sample_signed_certificate(&ca);
    let crl = RevocationList::new();

    let result = verify_handshake_detailed_at(&cert, &ca, &crl, 1_750_000_000);

    assert!(result.is_ok());
}

#[test]
fn certificate_domain_errors_map_to_stable_handshake_errors() {
    assert_eq!(
        map_certificate_error(CertificateError::EmptySignature),
        HandshakeError::MissingSignature
    );
    assert_eq!(
        map_certificate_error(CertificateError::InvalidIssuer),
        HandshakeError::InvalidIssuer
    );
    assert_eq!(
        map_certificate_error(CertificateError::InvalidPublicKeyHex),
        HandshakeError::InvalidCertificate("CERT_INVALID_PUBLIC_KEY_HEX".to_string())
    );
}
