//! Domain-separated transaction hashes and the transaction root.

use aoxcore::block::Capability;
use aoxcore::block::TargetOutpost;
use aoxcore::transaction::hash::calculate_transaction_root;
use aoxcore::transaction::hash::checked_len;
use aoxcore::transaction::hash::compute_hash;
use aoxcore::transaction::hash::empty_transaction_root;
use aoxcore::transaction::hash::hash_internal_node;
use aoxcore::transaction::hash::hash_signing_payload;
use aoxcore::transaction::hash::hash_transaction;
use aoxcore::transaction::hash::hash_transaction_intent;
use aoxcore::transaction::hash::TransactionHashError;
use aoxcore::transaction::hash::ZERO_HASH;
use aoxcore::transaction::Transaction;

fn bytes32(v: u8) -> [u8; 32] {
    [v; 32]
}

fn bytes64(v: u8) -> [u8; 64] {
    [v; 64]
}

fn sample_transaction(payload: Vec<u8>) -> Transaction {
    Transaction {
        sender: bytes32(1),
        nonce: 42,
        capability: Capability::UserSigned,
        target: TargetOutpost::EthMainnetGateway,
        payload,
        signature: bytes64(9),
    }
}

#[test]
fn signing_payload_hash_is_deterministic() {
    let tx = sample_transaction(vec![1, 2, 3, 4]);
    assert_eq!(hash_signing_payload(&tx), hash_signing_payload(&tx));
}

#[test]
fn intent_hash_is_stable_and_signature_independent() {
    let a = sample_transaction(vec![7, 8, 9]);
    let mut b = sample_transaction(vec![7, 8, 9]);
    b.signature = bytes64(77);

    assert_eq!(hash_transaction_intent(&a), hash_transaction_intent(&b));
    assert_ne!(hash_transaction(&a), hash_transaction(&b));
}

#[test]
fn signed_transaction_hash_changes_with_payload() {
    let a = sample_transaction(vec![1, 2, 3]);
    let b = sample_transaction(vec![1, 2, 3, 4]);

    assert_ne!(hash_transaction(&a), hash_transaction(&b));
}

#[test]
fn empty_transaction_root_is_stable_and_non_zero() {
    let a = calculate_transaction_root(&[]).expect("root must calculate");
    let b = calculate_transaction_root(&[]).expect("root must calculate");

    assert_eq!(a, b);
    assert_eq!(a, empty_transaction_root());
    assert_ne!(a, ZERO_HASH);
}

#[test]
fn transaction_root_changes_when_order_changes() {
    let tx1 = sample_transaction(vec![1]);
    let tx2 = sample_transaction(vec![2]);

    let root_a =
        calculate_transaction_root(&[tx1.clone(), tx2.clone()]).expect("root must calculate");
    let root_b = calculate_transaction_root(&[tx2, tx1]).expect("root must calculate");

    assert_ne!(root_a, root_b);
}

#[test]
fn generic_hash_is_domain_separated_from_signed_transaction_hash() {
    let payload = vec![1, 2, 3, 4];
    let tx = sample_transaction(payload.clone());

    assert_ne!(
        compute_hash(&payload).expect("hash must calculate"),
        hash_transaction(&tx).expect("hash must calculate")
    );
}

#[test]
fn internal_node_hash_is_deterministic() {
    let left = bytes32(11);
    let right = bytes32(22);

    assert_eq!(
        hash_internal_node(&left, &right),
        hash_internal_node(&left, &right)
    );
}

#[test]
fn hash_checked_len_rejects_usize_values_above_u32() {
    assert_eq!(
        checked_len((u32::MAX as usize) + 1),
        Err(TransactionHashError::LengthOverflow)
    );
}
