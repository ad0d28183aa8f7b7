//! The library's laws, each checked on concrete values.

use aoxcore::block::Capability;
use aoxcore::block::TargetOutpost;
use aoxcore::identity::gate::Gate;
use aoxcore::identity::pq_keys::unwrap_verified_message;
use aoxcore::identity::pq_keys::wrap_message_for_signing;
use aoxcore::identity::pq_keys::PqKeyError;
use aoxcore::identity::registry::Registry;
use aoxcore::identity::revocation::RevocationError;
use aoxcore::identity::revocation::RevocationList;
use aoxcore::identity::revocation::RevocationReason;
use aoxcore::identity::seed::GeneratedSeed;
use aoxcore::identity::seed::SeedKind;
use aoxcore::protocol::envelope::canonicalize_payload_type;
use aoxcore::protocol::envelope::MessageEnvelopeError;
use aoxcore::state::account::Account;
use aoxcore::transaction::pool::TransactionPool;
use aoxcore::transaction::Transaction;
use aoxcore::version::core_identity;
use aoxcore::version::CoreIdentity;
use aoxcore::version::CoreIdentityError;
use ed25519_dalek::Signer;
use ed25519_dalek::SigningKey;

fn signed(seed: u8, nonce: u64, payload: Vec<u8>) -> Transaction {
    let key = SigningKey::from_bytes(&[seed; 32]);
    let unsigned = Transaction {
        sender: key.verifying_key().to_bytes(),
        nonce,
        capability: Capability::UserSigned,
        target: TargetOutpost::EthMainnetGateway,
        payload,
        signature: [0u8; 64],
    };
    let signature = key.sign(&unsigned.signing_message()).to_bytes();
    Transaction { signature, ..unsigned }
}

#[test]
fn revoke_at_then_is_revoked() {
    let mut crl = RevocationList::new();
    assert_eq!(crl.revoke_at("AOXC-VAL-EU-77", RevocationReason::KeyCompromise, 5), Ok(true));
    assert!(crl.is_revoked("AOXC-VAL-EU-77"));
    assert_eq!(crl.get("AOXC-VAL-EU-77").unwrap().reason, RevocationReason::KeyCompromise);
}

#[test]
fn second_revoke_keeps_the_first_record() {
    let mut crl = RevocationList::new();
    crl.revoke_at("AOXC-A", RevocationReason::OperatorAction, 10).unwrap();
    assert_eq!(crl.revoke_at("AOXC-A", RevocationReason::KeyCompromise, 20), Ok(false));

    let entry = crl.get("AOXC-A").unwrap();
    assert_eq!(entry.revoked_at, 10);
    assert_eq!(entry.reason, RevocationReason::OperatorAction);
}

#[test]
fn refused_revoke_leaves_the_list_unchanged() {
    let mut crl = RevocationList::new();
    crl.revoke_at("AOXC-A", RevocationReason::OperatorAction, 10).unwrap();
    let before = crl.export_entries();

    assert_eq!(
        crl.revoke_at("AOXC-B", RevocationReason::OperatorAction, 0),
        Err(RevocationError::InvalidRevokedAt)
    );
    assert_eq!(crl.export_entries(), before);
    assert_eq!(crl.validate(), Ok(()));
}

#[test]
fn grant_then_allow_and_revoke_then_deny() {
    let mut gate = Gate::new();
    assert!(!gate.allow("obs", "treasury"));

    gate.grant(" OBS ", "Treasury");
    assert!(gate.allow("obs", "TREASURY"));

    gate.revoke("OBS", "treasury");
    assert!(!gate.allow("OBS", "treasury"));
}

#[test]
fn register_then_lookup_and_first_registration_wins() {
    let mut registry = Registry::new();
    registry.register("actor-9".to_string(), "validator".to_string());
    registry.register("actor-9".to_string(), "observer".to_string());

    assert!(registry.is_registered("actor-9"));
    assert_eq!(registry.role("actor-9"), Some("validator"));
    assert_eq!(registry.role("actor-10"), None);
}

#[test]
fn unwrap_undoes_wrap() {
    let message = b"protocol-bound message".to_vec();
    let wrapped = wrap_message_for_signing(&message);

    assert_ne!(wrapped, message);
    assert_eq!(unwrap_verified_message(&wrapped), Ok(message));
    assert_eq!(
        unwrap_verified_message(b"short"),
        Err(PqKeyError::InvalidWrappedMessageDomain)
    );
}

#[test]
fn recovery_seed_hex_roundtrip_restores_the_same_seed() {
    let seed = GeneratedSeed::from_recovery_seed_at(SeedKind::WalletRoot, [0x5A; 32], 1).unwrap();
    let hex = seed.recovery_seed_hex();
    assert_eq!(hex, "5A".repeat(32));

    let restored = GeneratedSeed::from_recovery_seed_hex(SeedKind::WalletRoot, &hex).unwrap();
    assert_eq!(restored.recovery_seed(), seed.recovery_seed());
    assert_eq!(restored.master_seed(), seed.master_seed());
}

#[test]
fn adding_then_consuming_energy_restores_the_account() {
    let mut account = Account::with_energy(Capability::User, 100);
    let before = account.clone();

    account.add_energy(25).unwrap();
    assert_eq!(account.energy, 125);
    account.consume_energy(25).unwrap();
    assert_eq!(account, before);
}

#[test]
fn canonical_payload_type_is_its_own_canonical_form() {
    let canonical = canonicalize_payload_type("  Bridge.Commitment_V2 ").unwrap();
    assert_eq!(canonical, "bridge.commitment_v2");
    assert_eq!(canonicalize_payload_type(&canonical), Ok(canonical.clone()));

    assert_eq!(canonicalize_payload_type("   "), Err(MessageEnvelopeError::EmptyPayloadType));
    assert_eq!(
        canonicalize_payload_type("bridge..commitment"),
        Err(MessageEnvelopeError::PayloadTypeNotCanonical)
    );
    assert_eq!(
        canonicalize_payload_type(&"a".repeat(65)),
        Err(MessageEnvelopeError::PayloadTypeTooLong)
    );
}

#[test]
fn only_the_canonical_identity_validates() {
    let canonical = core_identity();
    assert_eq!(canonical.validate(), Ok(()));

    let other = CoreIdentity { block_format: "AOXC-BLOCK-FMT-V2", ..canonical };
    assert_eq!(other.validate(), Err(CoreIdentityError::InvalidBlockFormat));
    let other = CoreIdentity { genesis_authority: "X", ..canonical };
    assert_eq!(other.validate(), Err(CoreIdentityError::InvalidGenesisAuthority));
    assert_eq!(
        CoreIdentityError::InvalidGenesisAuthority.code(),
        "CORE_IDENTITY_INVALID_GENESIS_AUTHORITY"
    );
    assert!(canonical.commitment_hex().starts_with(&canonical.fingerprint()));
}

#[test]
fn removing_what_add_inserted_restores_the_pool() {
    let mut pool = TransactionPool::new();
    pool.add(signed(1, 1, vec![1])).unwrap();
    pool.add(signed(3, 1, vec![3])).unwrap();
    let before = pool.sorted_tx_ids();

    let id = pool.add(signed(2, 5, vec![2])).unwrap();
    assert!(pool.contains_tx_id(&id));
    let tx = signed(2, 5, vec![2]);
    assert!(pool.contains_sender_nonce(&tx.sender, 5));

    let removed = pool.remove(&id).unwrap();
    assert_eq!(removed, tx);
    assert_eq!(pool.sorted_tx_ids(), before);
    assert!(!pool.contains_tx_id(&id));
}

#[test]
fn pool_orders_by_sender_then_nonce_and_drain_matches_selection() {
    let mut pool = TransactionPool::new();
    pool.add(signed(4, 3, vec![1, 1])).unwrap();
    pool.add(signed(4, 1, vec![2, 2])).unwrap();
    pool.add(signed(4, 2, vec![3, 3])).unwrap();

    let snapshot = pool.snapshot_ordered();
    let nonces: Vec<u64> = snapshot.iter().map(|(_, tx)| tx.nonce).collect();
    assert_eq!(nonces, vec![1, 2, 3]);

    let selected: Vec<[u8; 32]> = pool.select_for_block(2, 4).iter().map(|(id, _)| *id).collect();
    let drained: Vec<[u8; 32]> = pool.drain_for_block(2, 4).iter().map(|(id, _)| *id).collect();
    assert_eq!(selected, drained);
    assert_eq!(pool.len(), 1);
    assert_eq!(pool.snapshot_ordered()[0].1.nonce, 3);
}
