//! Protocol vocabulary and the message envelope.

use aoxcore::protocol::canonical_chain_families;
use aoxcore::protocol::canonical_message_envelope_fields;
use aoxcore::protocol::canonical_modules;
use aoxcore::protocol::canonical_sovereign_roots;
use aoxcore::protocol::ChainFamily;
use aoxcore::protocol::FeeClass;
use aoxcore::protocol::MessageEnvelope;
use aoxcore::protocol::ModuleId;
use aoxcore::protocol::SovereignRoot;


fn sample_envelope() -> MessageEnvelope {
    MessageEnvelope {
        source_module: ModuleId::Interop,
        destination_module: ModuleId::Proof,
        source_chain_family: ChainFamily::Evm,
        target_chain_family: ChainFamily::Relay,
        nonce: 7,
        payload_type: "bridge.commitment".to_string(),
        payload_hash: [0x11; 32],
        proof_reference: Some([0x22; 32]),
        fee_class: FeeClass::Priority,
        expiry: Some(42),
        replay_protection_tag: [0x33; 16],
    }
}

#[test]
fn canonical_module_list_matches_six_domain_model() {
    assert_eq!(canonical_modules().len(), 6);
    assert_eq!(canonical_modules()[0], ModuleId::RelayCore);
    assert_eq!(canonical_modules()[5], ModuleId::Proof);
}

#[test]
fn canonical_chain_family_list_matches_five_target_model() {
    let families = canonical_chain_families();
    assert_eq!(families.len(), 5);
    assert!(families.contains(&ChainFamily::Evm));
    assert!(families.contains(&ChainFamily::Solana));
    assert!(families.contains(&ChainFamily::Utxo));
    assert!(families.contains(&ChainFamily::Ibc));
    assert!(families.contains(&ChainFamily::Object));
}

#[test]
fn message_envelope_validation_rejects_invalid_values() {
    let mut envelope = sample_envelope();
    envelope.destination_module = ModuleId::Interop;
    assert!(envelope.validate().is_err());

    let mut envelope = sample_envelope();
    envelope.payload_type.clear();
    assert!(envelope.validate().is_err());

    let mut envelope = sample_envelope();
    envelope.replay_protection_tag = [0u8; 16];
    assert!(envelope.validate().is_err());
}

#[test]
fn message_envelope_hash_is_deterministic_and_sensitive() {
    let envelope = sample_envelope();
    let mut changed = sample_envelope();
    changed.nonce += 1;

    assert_eq!(envelope.hash(), sample_envelope().hash());
    assert_ne!(envelope.hash(), changed.hash());
}

#[test]
fn canonical_message_field_count_remains_stable() {
    let fields = canonical_message_envelope_fields();
    assert_eq!(fields.len(), 11);
    assert_eq!(fields[0], "sourceModule");
    assert_eq!(fields[10], "replayProtectionTag");
}

#[test]
fn canonical_sovereign_roots_match_local_constitutional_model() {
    let roots = canonical_sovereign_roots();
    assert_eq!(roots.len(), 7);
    assert_eq!(roots[0], SovereignRoot::Identity);
    assert_eq!(roots[6], SovereignRoot::Treasury);
}
