//! Native token policy profiles, validation rules and error codes.

use aoxcore::asset::SupplyModel;
use aoxcore::native_token::NativeTokenError;
use aoxcore::native_token::NativeTokenNetwork;
use aoxcore::native_token::NativeTokenPolicyV1;
use aoxcore::native_token::ERROR_CODE_INVALID_POLICY;
use aoxcore::native_token::ERROR_CODE_SUPPLY_OVERFLOW;
use aoxcore::native_token::NATIVE_TOKEN_POLICY_VERSION;
use aoxcore::native_token::NATIVE_TOKEN_SYMBOL;

const ONE: u128 = 1_000_000_000_000_000_000;

#[test]
fn mainnet_policy_has_canonical_limits() {
    let policy = NativeTokenPolicyV1::for_network(NativeTokenNetwork::Mainnet);

    assert_eq!(policy.version, NATIVE_TOKEN_POLICY_VERSION);
    assert_eq!(policy.symbol, NATIVE_TOKEN_SYMBOL);
    assert_eq!(policy.decimals, 18);
    assert_eq!(policy.quantum_policy.signature_suite, "ML-DSA-87+Ed25519");
    assert_eq!(policy.quantum_policy.anti_replay_domain, "AOXC/NATIVE_TOKEN/MAINNET/V1");
    assert_eq!(policy.quantum_policy.max_transfer_amount, 10_000_000 * ONE);
    assert_eq!(policy.quantum_policy.max_total_supply, 10_000_000_000 * ONE);
    assert_eq!(policy.quantum_policy.max_proof_tag_len, 4096);
}

#[test]
fn testnet_and_devnet_policies_have_their_limits() {
    let testnet = NativeTokenPolicyV1::for_network(NativeTokenNetwork::Testnet);
    assert_eq!(testnet.quantum_policy.signature_suite, "ML-DSA-65+Ed25519");
    assert_eq!(testnet.quantum_policy.max_transfer_amount, 500_000_000 * ONE);
    assert_eq!(testnet.quantum_policy.max_total_supply, 100_000_000_000 * ONE);

    let devnet = NativeTokenPolicyV1::for_network(NativeTokenNetwork::Devnet);
    assert_eq!(devnet.quantum_policy.signature_suite, "ML-DSA-44+Ed25519");
    assert_eq!(devnet.quantum_policy.max_transfer_amount, u128::MAX);
    assert_eq!(devnet.quantum_policy.max_proof_tag_len, 16_384);
}

#[test]
fn every_network_policy_validates() {
    for network in [
        NativeTokenNetwork::Mainnet,
        NativeTokenNetwork::Testnet,
        NativeTokenNetwork::Devnet,
    ] {
        let policy = NativeTokenPolicyV1::for_network(network);
        assert_eq!(policy.validate(), Ok(()));
        assert_eq!(policy.network, network);
    }
}

#[test]
fn default_policy_is_mainnet() {
    let policy = NativeTokenPolicyV1::default();
    assert_eq!(policy, NativeTokenPolicyV1::for_network(NativeTokenNetwork::Mainnet));
    assert_eq!(NativeTokenNetwork::default(), NativeTokenNetwork::Mainnet);
}

#[test]
fn governance_emission_allows_mint_and_fixed_supply_does_not() {
    let mut policy = NativeTokenPolicyV1::default();
    assert!(policy.allows_mint());

    policy.supply_model = SupplyModel::ProgrammaticEmission;
    assert!(policy.allows_mint());

    policy.supply_model = SupplyModel::TreasuryAuthorizedEmission;
    assert!(policy.allows_mint());

    policy.supply_model = SupplyModel::FixedGenesis;
    assert!(!policy.allows_mint());
}

#[test]
fn validation_accepts_padded_symbol_but_rejects_wrong_symbol() {
    let mut policy = NativeTokenPolicyV1::default();
    policy.symbol = "  AOXC ".to_string();
    assert_eq!(policy.validate(), Ok(()));

    policy.symbol = "AOX".to_string();
    assert_eq!(policy.validate(), Err(NativeTokenError::InvalidPolicy));
}

#[test]
fn validation_rejects_each_broken_rule() {
    let base = NativeTokenPolicyV1::default();

    let mut p = base.clone();
    p.version = 2;
    assert_eq!(p.validate(), Err(NativeTokenError::InvalidPolicy));

    let mut p = base.clone();
    p.decimals = 8;
    assert_eq!(p.validate(), Err(NativeTokenError::InvalidPolicy));

    let mut p = base.clone();
    p.quantum_policy.signature_suite = "   ".to_string();
    assert_eq!(p.validate(), Err(NativeTokenError::InvalidPolicy));

    let mut p = base.clone();
    p.quantum_policy.anti_replay_domain = String::new();
    assert_eq!(p.validate(), Err(NativeTokenError::InvalidPolicy));

    let mut p = base.clone();
    p.quantum_policy.max_transfer_amount = 0;
    assert_eq!(p.validate(), Err(NativeTokenError::InvalidPolicy));

    let mut p = base.clone();
    p.quantum_policy.max_total_supply = 0;
    assert_eq!(p.validate(), Err(NativeTokenError::InvalidPolicy));

    let mut p = base.clone();
    p.quantum_policy.max_transfer_amount = p.quantum_policy.max_total_supply + 1;
    assert_eq!(p.validate(), Err(NativeTokenError::InvalidPolicy));

    let mut p = base;
    p.quantum_policy.max_proof_tag_len = 0;
    assert_eq!(p.validate(), Err(NativeTokenError::InvalidPolicy));
}

#[test]
fn transfer_and_mint_amounts_are_checked_against_the_ceiling() {
    let policy = NativeTokenPolicyV1::default();
    let ceiling = policy.quantum_policy.max_transfer_amount;

    assert_eq!(policy.validate_transfer_amount(0), Err(NativeTokenError::InvalidAmount));
    assert_eq!(policy.validate_transfer_amount(1), Ok(()));
    assert_eq!(policy.validate_transfer_amount(ceiling), Ok(()));
    assert_eq!(
        policy.validate_transfer_amount(ceiling + 1),
        Err(NativeTokenError::TransferLimitExceeded)
    );
    assert_eq!(policy.validate_mint_amount(0), Err(NativeTokenError::InvalidAmount));
    assert_eq!(
        policy.validate_mint_amount(ceiling + 1),
        Err(NativeTokenError::TransferLimitExceeded)
    );
}

#[test]
fn proof_tags_must_be_present_and_bounded() {
    let policy = NativeTokenPolicyV1::default();

    assert_eq!(policy.validate_proof_tag(&[]), Err(NativeTokenError::InvalidProofTag));
    assert_eq!(policy.validate_proof_tag(&[1u8; 4096]), Ok(()));
    assert_eq!(
        policy.validate_proof_tag(&[1u8; 4097]),
        Err(NativeTokenError::ProofTagTooLarge)
    );
}

#[test]
fn error_codes_and_receipt_codes_are_stable() {
    assert_eq!(NativeTokenError::SupplyOverflow.code(), "NATIVE_TOKEN_SUPPLY_OVERFLOW");
    assert_eq!(NativeTokenError::InvalidPolicy.code(), "NATIVE_TOKEN_INVALID_POLICY");
    assert_eq!(
        NativeTokenError::SupplyOverflow.receipt_error_code(),
        ERROR_CODE_SUPPLY_OVERFLOW
    );
    assert_eq!(NativeTokenError::InvalidPolicy.receipt_error_code(), ERROR_CODE_INVALID_POLICY);
    assert_eq!(NativeTokenError::ReplayDetected.receipt_error_code(), 0x2008);
    assert_eq!(
        NativeTokenError::NonceRegression.message(),
        "native token transfer nonce is not strictly increasing"
    );
}
