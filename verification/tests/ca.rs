//! Certificate authority: key identity, signing, verification and
//! reconstruction from serialized key material.

use aoxcore::identity::ca::CertificateAuthority;
use aoxcore::identity::ca::CERTIFICATE_SIGNING_DOMAIN;
use aoxcore::identity::certificate::Certificate;


fn sample_certificate() -> Certificate {
    Certificate::new_unsigned(
        "AOXC-0001-MAIN".to_string(),
        "AOXC-VAL-EU-3F7A9C21D4E8B7AA-K9".to_string(),
        "VAL".to_string(),
        "EU".to_string(),
        "A1B2C3D4".to_string(),
        1_700_000_000,
        1_800_000_000,
    )
}

#[test]
fn key_id_is_stable_for_same_instance() {
    let ca = CertificateAuthority::new("AOXC-ROOT-CA").expect("authority creation must succeed");

    let a = ca.key_id();
    let b = ca.key_id();

    assert_eq!(a, b);
    assert_eq!(a.len(), 16);
}

#[test]
fn sign_and_verify_roundtrip_succeeds() {
    let ca = CertificateAuthority::new("AOXC-ROOT-CA").expect("authority creation must succeed");
    let cert = sample_certificate();

    let signed = ca
        .sign_certificate(cert)
        .expect("certificate signing must succeed");

    assert!(ca.verify_certificate(&signed));
}

#[test]
fn verification_fails_when_signature_is_missing() {
    let ca = CertificateAuthority::new("AOXC-ROOT-CA").expect("authority creation must succeed");
    let cert = sample_certificate();

    assert!(!ca.verify_certificate(&cert));
}

#[test]
fn verification_fails_when_certificate_is_tampered() {
    let ca = CertificateAuthority::new("AOXC-ROOT-CA").expect("authority creation must succeed");
    let cert = sample_certificate();

    let mut signed = ca
        .sign_certificate(cert)
        .expect("certificate signing must succeed");

    signed.actor_id = "AOXC-VAL-EU-FFFFFFFFFFFFFFFF-Z9".to_string();

    assert!(!ca.verify_certificate(&signed));
}

#[test]
fn verification_fails_when_issuer_is_tampered() {
    let ca = CertificateAuthority::new("AOXC-ROOT-CA").expect("authority creation must succeed");
    let cert = sample_certificate();

    let mut signed = ca
        .sign_certificate(cert)
        .expect("certificate signing must succeed");

    signed.issuer = "FAKE-CA".to_string();

    assert!(!ca.verify_certificate(&signed));
}

#[test]
fn canonicalize_certificate_overwrites_issuer() {
    let ca = CertificateAuthority::new("AOXC-ROOT-CA").expect("authority creation must succeed");

    let cert = Certificate {
        issuer: "OLD".to_string(),
        ..sample_certificate()
    };

    let canonical = ca.canonicalize_certificate(cert);
    assert_eq!(canonical.issuer, "AOXC-ROOT-CA");
}

#[test]
fn verifier_only_instance_does_not_report_private_key() {
    let ca = CertificateAuthority::new("AOXC-ROOT-CA").expect("authority creation must succeed");
    let verifier = ca.to_public_verifier();

    assert!(!verifier.has_private_key());
    assert_eq!(verifier.issuer, "AOXC-ROOT-CA");
    assert_eq!(verifier.public_key_hex(), ca.public_key_hex());
}

#[test]
fn from_serialized_parts_rejects_mismatched_keypair() {
    let ca_a = CertificateAuthority::new("AOXC-ROOT-CA").expect("authority creation must succeed");
    let ca_b = CertificateAuthority::new("AOXC-ROOT-CA").expect("authority creation must succeed");

    let result = CertificateAuthority::from_serialized_parts(
        "AOXC-ROOT-CA",
        ca_a.pk_bytes.clone(),
        ca_b.sk_bytes.clone(),
    );

    assert!(matches!(result, Err(error) if error.starts_with("CA_KEYPAIR_MISMATCH:")));
}

#[test]
fn invalid_issuer_is_rejected_by_reconstruction() {
    let ca = CertificateAuthority::new("AOXC-ROOT-CA").expect("authority creation must succeed");

    let result =
        CertificateAuthority::from_public_key_bytes("bad issuer!", ca.pk_bytes.clone());

    assert!(matches!(result, Err(error) if error.starts_with("CA_ISSUER_INVALID:")));
}

#[test]
fn certificate_signing_payload_is_domain_separated() {
    let ca = CertificateAuthority::new("AOXC-ROOT-CA").expect("authority creation must succeed");
    let cert = ca.canonicalize_certificate(sample_certificate());

    let payload = ca
        .certificate_signing_payload(&cert)
        .expect("signing payload must be created");

    assert!(payload.starts_with(CERTIFICATE_SIGNING_DOMAIN.as_bytes()));
}

#[test]
fn signed_certificate_verifies_under_public_verifiers_only_of_the_same_keys() {
    let ca = CertificateAuthority::new("AOXC-ROOT-CA").expect("authority creation must succeed");
    let signed = ca
        .sign_certificate(sample_certificate())
        .expect("certificate signing must succeed");

    assert!(ca.to_public_verifier().verify_certificate(&signed));
    let rebuilt = CertificateAuthority::from_public_key_bytes("AOXC-ROOT-CA", ca.pk_bytes.clone())
        .expect("public key bytes must be accepted");
    assert!(rebuilt.verify_certificate(&signed));

    let other = CertificateAuthority::new("AOXC-ROOT-CA").expect("authority creation must succeed");
    assert!(!other.verify_certificate(&signed));
    assert!(!ca.verify_certificate(&sample_certificate()));
}
