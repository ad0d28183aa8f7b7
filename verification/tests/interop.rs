//! Kernel interop identifiers, counterpart references and settlement context.

use aoxcore::protocol::interop::AuthorityDomain;
use aoxcore::protocol::interop::ChainCompatibilityClass;
use aoxcore::protocol::interop::ChainProfileId;
use aoxcore::protocol::interop::CounterpartId;
use aoxcore::protocol::interop::CrossChainMessageId;
use aoxcore::protocol::interop::FinalityClass;
use aoxcore::protocol::interop::KernelInteropError;
use aoxcore::protocol::interop::ProofType;
use aoxcore::protocol::interop::RemoteGateId;
use aoxcore::protocol::interop::SettlementContext;
use aoxcore::protocol::interop::SettlementDirection;
use aoxcore::protocol::interop::VerifiedCounterpartRef;


#[test]
fn chain_profile_id_rejects_empty() {
    let error = ChainProfileId::new("  ").expect_err("empty profile id must fail");
    assert_eq!(error, KernelInteropError::EmptyChainProfileId);
}

#[test]
fn cross_chain_message_id_requires_non_zero_routing_data() {
    let profile = ChainProfileId::new("evm-mainnet").expect("profile id should be valid");
    let id = CrossChainMessageId {
        source_profile: profile.clone(),
        destination_profile: profile,
        source_nonce: 0,
        routing_tag: [0u8; 16],
    };

    let error = id.validate().expect_err("invalid id must fail");
    assert_eq!(error, KernelInteropError::ZeroSourceNonce);
}

#[test]
fn verified_counterpart_reference_rejects_empty_remote_object_ref() {
    let reference = VerifiedCounterpartRef {
        counterpart_id: CounterpartId::new("ethereum.usdc.proxy")
            .expect("counterpart id should be valid"),
        remote_chain_profile: ChainProfileId::new("evm-mainnet")
            .expect("chain profile id should be valid"),
        remote_authority_domain: AuthorityDomain::ContractGoverned,
        remote_object_ref: "   ".to_string(),
        remote_gate_id: RemoteGateId::new("gate.v1").expect("remote gate id should be valid"),
    };

    let error = reference
        .validate()
        .expect_err("empty remote object ref must fail");
    assert_eq!(error, KernelInteropError::EmptyRemoteObjectRef);
}

#[test]
fn settlement_context_carries_counterpart_and_compatibility_boundaries() {
    let source = ChainProfileId::new("evm-mainnet").expect("source profile should be valid");
    let destination =
        ChainProfileId::new("aoxc-mainnet").expect("destination profile should be valid");
    let message_id = CrossChainMessageId {
        source_profile: source.clone(),
        destination_profile: destination,
        source_nonce: 9,
        routing_tag: [0xAB; 16],
    };

    let counterpart = VerifiedCounterpartRef {
        counterpart_id: CounterpartId::new("ethereum.staking_gate")
            .expect("counterpart id should be valid"),
        remote_chain_profile: source,
        remote_authority_domain: AuthorityDomain::ContractGoverned,
        remote_object_ref: "0xA0B86991C6218B36C1D19D4A2E9EB0CE3606EB48".to_string(),
        remote_gate_id: RemoteGateId::new("staking_gate.v2")
            .expect("remote gate id should be valid"),
    };

    let context = SettlementContext {
        message_id,
        source_chain_compatibility: ChainCompatibilityClass::EvmLike,
        proof_type: ProofType::MerkleInclusion,
        finality_class: FinalityClass::ProbabilisticConfirmations,
        authority_domain: AuthorityDomain::ContractGoverned,
        direction: SettlementDirection::Inbound,
        verified_counterpart: counterpart,
    };

    assert!(context.message_id.validate().is_ok());
    assert!(context.verified_counterpart.validate().is_ok());
}
