//! Pseudo zero-knowledge proof envelopes: generation and verification.

use aoxcore::identity::zkp_engine::compute_public_inputs_hash;
use aoxcore::identity::zkp_engine::generate_proof;
use aoxcore::identity::zkp_engine::generate_proof_strict;
use aoxcore::identity::zkp_engine::verify_proof;
use aoxcore::identity::zkp_engine::verify_proof_detailed;
use aoxcore::identity::zkp_engine::verify_proof_with_backend;
use aoxcore::identity::zkp_engine::ZkpBackend;
use aoxcore::identity::zkp_engine::ZkpError;
use aoxcore::identity::zkp_engine::ZkpProof;
use aoxcore::identity::zkp_engine::ZKP_PROOF_BYTES_LEN;

struct AcceptAllBackend;

impl ZkpBackend for AcceptAllBackend {
    fn verify(&self, _proof: &ZkpProof, _expected_public_inputs: &[u8]) -> Result<(), ZkpError> {
        Ok(())
    }
}

struct RejectAllBackend;

impl ZkpBackend for RejectAllBackend {
    fn verify(&self, _proof: &ZkpProof, _expected_public_inputs: &[u8]) -> Result<(), ZkpError> {
        Err(ZkpError::BackendRejected)
    }
}

#[test]
fn proof_roundtrip() {
    let proof = generate_proof("transfer_v1", b"witness", b"public-inputs");
    assert!(verify_proof(&proof, b"public-inputs").is_ok());
}

#[test]
fn strict_generation_rejects_invalid_circuit_id() {
    let result = generate_proof_strict(" bad circuit ", b"witness", b"public-inputs");
    assert_eq!(result, Err(ZkpError::InvalidCircuitId));
}

#[test]
fn public_input_mismatch_is_rejected() {
    let proof = generate_proof("transfer_v1", b"witness", b"public-inputs");

    let error = verify_proof(&proof, b"other-public-inputs").unwrap_err();
    assert_eq!(error, "ZKP_PUBLIC_INPUT_MISMATCH");
}

#[test]
fn circuit_tag_mismatch_is_rejected() {
    let mut proof = generate_proof("transfer_v1", b"witness", b"public-inputs");
    proof.circuit_id = "transfer_v2".to_string();

    let error = verify_proof_detailed(&proof, b"public-inputs").unwrap_err();
    assert_eq!(error, ZkpError::CircuitMismatch);
}

#[test]
fn proof_length_is_strict() {
    let mut proof = generate_proof("transfer_v1", b"witness", b"public-inputs");
    proof.proof_bytes = vec![0u8; 16];

    let error = verify_proof_detailed(&proof, b"public-inputs").unwrap_err();
    assert_eq!(error, ZkpError::InvalidProofLength);
}

#[test]
fn public_input_hash_is_uppercase_and_stable() {
    let a = compute_public_inputs_hash(b"public-inputs");
    let b = compute_public_inputs_hash(b"public-inputs");

    assert_eq!(a, b);
    assert_eq!(a, a.to_ascii_uppercase());
    assert_eq!(a.len(), 64);
}

#[test]
fn zkp_engine_fingerprint_is_stable() {
    let proof = generate_proof("transfer_v1", b"witness", b"public-inputs");

    let a = proof.fingerprint();
    let b = proof.fingerprint();

    assert_eq!(a, b);
    assert_eq!(a.len(), 16);
}

#[test]
fn generated_proof_has_expected_length() {
    let proof = generate_proof("transfer_v1", b"witness", b"public-inputs");
    assert_eq!(proof.proof_bytes.len(), ZKP_PROOF_BYTES_LEN);
}

#[test]
fn backend_verification_can_accept() {
    let proof = generate_proof("transfer_v1", b"witness", b"public-inputs");
    let backend = AcceptAllBackend;

    let result = verify_proof_with_backend(&proof, b"public-inputs", &backend);
    assert!(result.is_ok());
}

#[test]
fn backend_verification_can_reject() {
    let proof = generate_proof("transfer_v1", b"witness", b"public-inputs");
    let backend = RejectAllBackend;

    let result = verify_proof_with_backend(&proof, b"public-inputs", &backend);
    assert_eq!(result, Err(ZkpError::BackendRejected));
}
