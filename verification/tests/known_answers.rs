//! Known-answer checks: digests, encodings and signatures computed through
//! the library agree with the outside crates called directly.

use aoxcore::block::Capability;
use aoxcore::block::TargetOutpost;
use aoxcore::identity::mnemonic::encode_recovery_seed_as_phrase;
use aoxcore::identity::threshold_sig::session::compute_payload_digest;
use aoxcore::receipts::Event;
use aoxcore::transaction::Transaction;
use aoxcore::transaction::TransactionError;
use aoxcore::version::core_identity;
use ed25519_dalek::Signer;
use ed25519_dalek::SigningKey;
use sha3::Digest;
use sha3::Sha3_256;

#[test]
fn core_identity_commitment_is_sha3_of_its_preimage() {
    let identity = core_identity();

    let mut hasher = Sha3_256::new();
    hasher.update(b"AOXC/CORE_IDENTITY/V1");
    hasher.update([0u8]);
    hasher.update([1u8]);
    hasher.update([0u8]);
    hasher.update(b"AOXC Canonical Core");
    hasher.update([0u8]);
    hasher.update(b"AOXC-CORE-V1");
    hasher.update([0u8]);
    hasher.update(b"AOXC-BLOCK-FMT-V1-draft");
    hasher.update([0u8]);
    hasher.update(b"AOXC-GENESIS-AUTH-V1-draft");
    let expected: [u8; 32] = hasher.finalize().into();

    assert_eq!(identity.commitment(), expected);
    assert_eq!(identity.commitment_hex(), hex::encode_upper(expected));
    assert_eq!(identity.fingerprint(), hex::encode_upper(&expected[..8]));
}

#[test]
fn payload_digest_is_domain_separated_sha3() {
    let mut hasher = Sha3_256::new();
    hasher.update(b"AOXC/IDENTITY/TSS/PAYLOAD_DIGEST/V1");
    hasher.update([0u8]);
    hasher.update(b"payload");
    let expected: [u8; 32] = hasher.finalize().into();

    assert_eq!(compute_payload_digest(b"payload"), expected);
}

#[test]
fn event_hash_is_blake3_of_its_encoding() {
    let event = Event::new(0x0102, vec![9, 8, 7]).unwrap();

    let mut message = Vec::new();
    message.extend_from_slice(b"AOXC/AOVM/RECEIPTS/HASH");
    message.push(0);
    message.extend_from_slice(b"EVENT");
    message.push(0);
    message.push(1);
    message.extend_from_slice(&0x0102u16.to_le_bytes());
    message.extend_from_slice(&3u32.to_le_bytes());
    message.extend_from_slice(&[9, 8, 7]);

    assert_eq!(event.hash(), *blake3::hash(&message).as_bytes());
}

#[test]
fn all_zero_recovery_seed_encodes_to_the_bip39_vector() {
    let phrase = encode_recovery_seed_as_phrase(&[0u8; 32]).unwrap();
    let expected = format!("{} art", vec!["abandon"; 23].join(" "));
    assert_eq!(phrase, expected);
}

#[test]
fn ed25519_signatures_are_checked_by_verify_signature() {
    let key = SigningKey::from_bytes(&[7u8; 32]);
    let unsigned = Transaction {
        sender: key.verifying_key().to_bytes(),
        nonce: 1,
        capability: Capability::UserSigned,
        target: TargetOutpost::EthMainnetGateway,
        payload: vec![1, 2, 3],
        signature: [0u8; 64],
    };
    let signature = key.sign(&unsigned.signing_message()).to_bytes();
    let signed = Transaction { signature, ..unsigned.clone() };

    assert_eq!(signed.verify_signature(), Ok(()));
    assert_eq!(unsigned.verify_signature(), Err(TransactionError::InvalidSignature));

    let other = Transaction { nonce: 2, ..signed };
    assert_eq!(other.verify_signature(), Err(TransactionError::InvalidSignature));
}
