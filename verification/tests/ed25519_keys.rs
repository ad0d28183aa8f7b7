//! Ed25519 role keys derived from key-engine material.

use aoxcore::identity::ed25519_keys::derive_ed25519_signing_key;
use aoxcore::identity::ed25519_keys::derive_ed25519_seed;
use aoxcore::identity::ed25519_keys::encode_ed25519_public_key_hex;
use aoxcore::identity::ed25519_keys::fingerprint_ed25519_public_key;
use sha3::Digest;
use aoxcore::identity::ed25519_keys::derive_ed25519_verifying_key;
use aoxcore::identity::ed25519_keys::Ed25519KeyError;
use aoxcore::identity::ed25519_keys::AOXC_ED25519_PUBLIC_KEY_LEN;
use aoxcore::identity::key_engine::DERIVED_ENTROPY_LEN;

fn sample_material() -> [u8; DERIVED_ENTROPY_LEN] {
    [0x42; DERIVED_ENTROPY_LEN]
}

#[test]
fn ed25519_seed_derivation_is_deterministic() {
    let material = sample_material();

    let a = derive_ed25519_seed(&material, "consensus").unwrap();
    let b = derive_ed25519_seed(&material, "consensus").unwrap();

    assert_eq!(a, b);
}

#[test]
fn ed25519_seed_derivation_changes_by_role() {
    let material = sample_material();

    let a = derive_ed25519_seed(&material, "consensus").unwrap();
    let b = derive_ed25519_seed(&material, "transport").unwrap();

    assert_ne!(a, b);
}

#[test]
fn verifying_key_has_expected_length() {
    let material = sample_material();

    let key = derive_ed25519_verifying_key(&material, "identity").unwrap();
    assert_eq!(key.to_bytes().len(), AOXC_ED25519_PUBLIC_KEY_LEN);
}

#[test]
fn ed25519_keys_empty_role_label_is_rejected() {
    let material = sample_material();

    let result = derive_ed25519_seed(&material, "");
    assert_eq!(result, Err(Ed25519KeyError::EmptyRoleLabel));
}

#[test]
fn public_key_matches_dalek_and_encodes_as_upper_hex() {
    let material = sample_material();
    let public_key = derive_ed25519_verifying_key(&material, "identity").unwrap();
    let seed = derive_ed25519_seed(&material, "identity").unwrap();
    let dalek = ed25519_dalek::SigningKey::from_bytes(&seed).verifying_key();
    assert_eq!(public_key.to_bytes(), dalek.to_bytes());

    let encoded = encode_ed25519_public_key_hex(&public_key);
    assert_eq!(encoded, hex::encode_upper(public_key.bytes));
    assert_eq!(encoded.len(), 2 * AOXC_ED25519_PUBLIC_KEY_LEN);

    let digest = sha3::Sha3_256::digest(public_key.bytes);
    assert_eq!(fingerprint_ed25519_public_key(&public_key), hex::encode_upper(&digest[..8]));

    let other = derive_ed25519_verifying_key(&material, "transport").unwrap();
    assert_ne!(fingerprint_ed25519_public_key(&public_key), fingerprint_ed25519_public_key(&other));
}

#[test]
fn signing_key_is_the_role_seed_and_its_signatures_verify() {
    let material = sample_material();
    let signing_key = derive_ed25519_signing_key(&material, "consensus").unwrap();
    let seed = derive_ed25519_seed(&material, "consensus").unwrap();
    assert_eq!(signing_key.to_bytes(), seed);

    let public_key = signing_key.verifying_key();
    assert_eq!(public_key, derive_ed25519_verifying_key(&material, "consensus").unwrap());

    let signature = signing_key.sign(b"AOXC block header");
    assert!(public_key.verify(b"AOXC block header", &signature));
    assert!(!public_key.verify(b"AOXC other header", &signature));

    let dalek = ed25519_dalek::SigningKey::from_bytes(&seed);
    assert_eq!(signature, ed25519_dalek::Signer::sign(&dalek, b"AOXC block header").to_bytes());
}
