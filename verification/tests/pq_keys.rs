//! Dilithium3 key utilities: signing, domain-separated messages, encodings.

use aoxcore::identity::pq_keys::expected_public_key_len;
use aoxcore::identity::pq_keys::expected_secret_key_len;
use aoxcore::identity::pq_keys::fingerprint;
use aoxcore::identity::pq_keys::generate_keypair;
use aoxcore::identity::pq_keys::public_key_from_bytes;
use aoxcore::identity::pq_keys::public_key_from_hex;
use aoxcore::identity::pq_keys::secret_key_from_bytes;
use aoxcore::identity::pq_keys::secret_key_from_hex;
use aoxcore::identity::pq_keys::serialize_public_key;
use aoxcore::identity::pq_keys::serialize_public_key_hex;
use aoxcore::identity::pq_keys::serialize_secret_key;
use aoxcore::identity::pq_keys::serialize_secret_key_hex;
use aoxcore::identity::pq_keys::sign_message;
use aoxcore::identity::pq_keys::sign_message_domain_separated;
use aoxcore::identity::pq_keys::verify_message;
use aoxcore::identity::pq_keys::verify_message_domain_separated;
use aoxcore::identity::pq_keys::PQ_FINGERPRINT_LEN;

#[test]
fn keypair_generation_works() {
    let (pk, sk) = generate_keypair().expect("keypair generation must succeed");

    assert_eq!(pk.as_bytes().len(), expected_public_key_len());
    assert_eq!(sk.as_bytes().len(), expected_secret_key_len());
}

#[test]
fn sign_and_verify_roundtrip() {
    let (pk, sk) = generate_keypair().expect("keypair generation must succeed");

    let message = b"AOXC test message";
    let signed = sign_message(message, &sk);
    let opened = verify_message(&signed, &pk).unwrap();

    assert_eq!(opened, message);
}

#[test]
fn sign_and_verify_domain_separated_roundtrip() {
    let (pk, sk) = generate_keypair().expect("keypair generation must succeed");

    let message = b"AOXC domain separated message";
    let signed = sign_message_domain_separated(message, &sk);
    let opened = verify_message_domain_separated(&signed, &pk).unwrap();

    assert_eq!(opened, message);
}

#[test]
fn raw_signed_message_is_not_accepted_by_domain_separated_verifier() {
    let (pk, sk) = generate_keypair().expect("keypair generation must succeed");

    let message = b"AOXC raw message";
    let signed = sign_message(message, &sk);
    let result = verify_message_domain_separated(&signed, &pk);

    assert_eq!(result, Err("INVALID_WRAPPED_MESSAGE_DOMAIN".to_string()));
}

#[test]
fn public_key_serialization_roundtrip() {
    let (pk, _) = generate_keypair().expect("keypair generation must succeed");

    let bytes = serialize_public_key(&pk);
    let restored = public_key_from_bytes(&bytes).unwrap();

    assert_eq!(bytes, restored.as_bytes());
}

#[test]
fn secret_key_serialization_roundtrip() {
    let (_, sk) = generate_keypair().expect("keypair generation must succeed");

    let bytes = serialize_secret_key(&sk);
    let restored = secret_key_from_bytes(&bytes).unwrap();

    assert_eq!(bytes, restored.as_bytes());
}

#[test]
fn public_key_hex_roundtrip() {
    let (pk, _) = generate_keypair().expect("keypair generation must succeed");

    let encoded = serialize_public_key_hex(&pk);
    let restored = public_key_from_hex(&encoded).unwrap();

    assert_eq!(pk.as_bytes(), restored.as_bytes());
}

#[test]
fn secret_key_hex_roundtrip() {
    let (_, sk) = generate_keypair().expect("keypair generation must succeed");

    let encoded = serialize_secret_key_hex(&sk);
    let restored = secret_key_from_hex(&encoded).unwrap();

    assert_eq!(sk.as_bytes(), restored.as_bytes());
}

#[test]
fn invalid_public_key_bytes_are_rejected() {
    let result = public_key_from_bytes(&[0u8; 8]);
    assert_eq!(result.err(), Some("INVALID_PUBLIC_KEY".to_string()));
}

#[test]
fn invalid_secret_key_bytes_are_rejected() {
    let result = secret_key_from_bytes(&[0u8; 8]);
    assert_eq!(result.err(), Some("INVALID_SECRET_KEY".to_string()));
}

#[test]
fn pq_keys_invalid_public_key_hex_is_rejected() {
    let result = public_key_from_hex("ZZ_NOT_HEX");
    assert_eq!(result.err(), Some("INVALID_PUBLIC_KEY_HEX".to_string()));
}

#[test]
fn invalid_secret_key_hex_is_rejected() {
    let result = secret_key_from_hex("ZZ_NOT_HEX");
    assert_eq!(result.err(), Some("INVALID_SECRET_KEY_HEX".to_string()));
}

#[test]
fn pq_keys_fingerprint_is_stable() {
    let (pk, _) = generate_keypair().expect("keypair generation must succeed");

    let a = fingerprint(&pk);
    let b = fingerprint(&pk);

    assert_eq!(a, b);
    assert_eq!(a.len(), PQ_FINGERPRINT_LEN * 2);
}

#[test]
fn different_public_keys_produce_different_fingerprints() {
    let (pk_a, _) = generate_keypair().expect("keypair generation must succeed");
    let (pk_b, _) = generate_keypair().expect("keypair generation must succeed");

    assert_ne!(fingerprint(&pk_a), fingerprint(&pk_b));
}

#[test]
fn restored_keys_hold_the_given_bytes_and_still_work() {
    let (pk, sk) = generate_keypair().expect("keypair generation must succeed");

    let pk_again = public_key_from_bytes(&serialize_public_key(&pk)).unwrap();
    let sk_again = secret_key_from_hex(&serialize_secret_key_hex(&sk)).unwrap();
    assert_eq!(pk_again.as_bytes(), pk.as_bytes());
    assert_eq!(sk_again.as_bytes(), sk.as_bytes());

    let signed = sign_message(b"restored", &sk_again);
    assert_eq!(signed, sign_message(b"restored", &sk));
    assert_eq!(verify_message(&signed, &pk_again).unwrap(), b"restored".to_vec());
    assert_eq!(fingerprint(&pk_again), fingerprint(&pk));
}

#[test]
fn signature_under_another_key_is_refused() {
    let (_, sk) = generate_keypair().expect("keypair generation must succeed");
    let (other_pk, _) = generate_keypair().expect("keypair generation must succeed");

    let signed = sign_message(b"AOXC", &sk);
    assert_eq!(
        verify_message(&signed, &other_pk),
        Err("SIGNATURE_VERIFICATION_FAILED".to_string())
    );
    assert_eq!(
        verify_message(&[1u8, 2, 3], &other_pk),
        Err("SIGNATURE_VERIFICATION_FAILED".to_string())
    );
}
