//! The native AOXC token: its domain errors, the per-network issuance and
//! anti-replay policy with its validation rules, and the ledger record.

use std::collections::HashMap;
use std::collections::HashSet;

use vstd::prelude::*;

use crate::asset::SupplyModel;
use crate::text::chars_of;
use crate::text::is_blank;
use crate::text::str_to_string;
use crate::text::trim;
use crate::text::trim_chars;
use crate::text::chars_eq;

verus! {

pub const NATIVE_TOKEN_SYMBOL: &'static str = "AOXC";

/// Policy schema version.
pub const NATIVE_TOKEN_POLICY_VERSION: u8 = 1;

/// Quantum transfer event payload version.
pub const NATIVE_TOKEN_QUANTUM_EVENT_VERSION: u8 = 1;

/// Digest size of replay commitments and receipt digests.
pub const NATIVE_TOKEN_COMMITMENT_SIZE: usize = 32;

/// Receipt event of a native transfer.
pub const EVENT_NATIVE_TRANSFER: u16 = 0x1001;

/// Receipt event of a mint.
pub const EVENT_NATIVE_MINT: u16 = 0x1002;

/// Receipt event of a quantum-aware transfer (versioned replay-binding payload).
pub const EVENT_NATIVE_TRANSFER_QUANTUM_V1: u16 = 0x1003;

pub const ERROR_CODE_SUPPLY_OVERFLOW: u16 = 0x2001;
pub const ERROR_CODE_BALANCE_OVERFLOW: u16 = 0x2002;
pub const ERROR_CODE_INSUFFICIENT_BALANCE: u16 = 0x2003;
pub const ERROR_CODE_MINT_DISABLED: u16 = 0x2004;
pub const ERROR_CODE_INVALID_AMOUNT: u16 = 0x2005;
pub const ERROR_CODE_TRANSFER_LIMIT_EXCEEDED: u16 = 0x2006;
pub const ERROR_CODE_NONCE_REGRESSION: u16 = 0x2007;
pub const ERROR_CODE_REPLAY_DETECTED: u16 = 0x2008;
pub const ERROR_CODE_INVALID_PROOF_TAG: u16 = 0x2009;
pub const ERROR_CODE_PROOF_TAG_TOO_LARGE: u16 = 0x200A;
pub const ERROR_CODE_INVALID_POLICY: u16 = 0x200B;

/// One whole token in base units (18 decimals).
pub const ONE_TOKEN: u128 = 1_000_000_000_000_000_000;

/// Domain errors of the native token ledger.
#[derive(Debug, Clone, Copy, PartialEq, Eq, Structural)]
pub enum NativeTokenError {
    SupplyOverflow,
    BalanceOverflow,
    InsufficientBalance,
    MintDisabledPolicy,
    InvalidAmount,
    TransferLimitExceeded,
    NonceRegression,
    ReplayDetected,
    InvalidProofTag,
    ProofTagTooLarge,
    InvalidPolicy,
}

impl NativeTokenError {
    pub open spec fn code_text(self) -> Seq<char> {
        match self {
            NativeTokenError::SupplyOverflow => "NATIVE_TOKEN_SUPPLY_OVERFLOW"@,
            NativeTokenError::BalanceOverflow => "NATIVE_TOKEN_BALANCE_OVERFLOW"@,
            NativeTokenError::InsufficientBalance => "NATIVE_TOKEN_INSUFFICIENT_BALANCE"@,
            NativeTokenError::MintDisabledPolicy => "NATIVE_TOKEN_MINT_DISABLED"@,
            NativeTokenError::InvalidAmount => "NATIVE_TOKEN_INVALID_AMOUNT"@,
            NativeTokenError::TransferLimitExceeded => "NATIVE_TOKEN_TRANSFER_LIMIT_EXCEEDED"@,
            NativeTokenError::NonceRegression => "NATIVE_TOKEN_NONCE_REGRESSION"@,
            NativeTokenError::ReplayDetected => "NATIVE_TOKEN_REPLAY_DETECTED"@,
            NativeTokenError::InvalidProofTag => "NATIVE_TOKEN_INVALID_PROOF_TAG"@,
            NativeTokenError::ProofTagTooLarge => "NATIVE_TOKEN_PROOF_TAG_TOO_LARGE"@,
            NativeTokenError::InvalidPolicy => "NATIVE_TOKEN_INVALID_POLICY"@,
        }
    }

    /// Stable symbolic error code for logs and telemetry.
    pub fn code(self) -> (r: &'static str)
        ensures
            r@ == self.code_text(),
    {
        match self {
            NativeTokenError::SupplyOverflow => "NATIVE_TOKEN_SUPPLY_OVERFLOW",
            NativeTokenError::BalanceOverflow => "NATIVE_TOKEN_BALANCE_OVERFLOW",
            NativeTokenError::InsufficientBalance => "NATIVE_TOKEN_INSUFFICIENT_BALANCE",
            NativeTokenError::MintDisabledPolicy => "NATIVE_TOKEN_MINT_DISABLED",
            NativeTokenError::InvalidAmount => "NATIVE_TOKEN_INVALID_AMOUNT",
            NativeTokenError::TransferLimitExceeded => "NATIVE_TOKEN_TRANSFER_LIMIT_EXCEEDED",
            NativeTokenError::NonceRegression => "NATIVE_TOKEN_NONCE_REGRESSION",
            NativeTokenError::ReplayDetected => "NATIVE_TOKEN_REPLAY_DETECTED",
            NativeTokenError::InvalidProofTag => "NATIVE_TOKEN_INVALID_PROOF_TAG",
            NativeTokenError::ProofTagTooLarge => "NATIVE_TOKEN_PROOF_TAG_TOO_LARGE",
            NativeTokenError::InvalidPolicy => "NATIVE_TOKEN_INVALID_POLICY",
        }
    }

    pub open spec fn receipt_code(self) -> u16 {
        match self {
            NativeTokenError::SupplyOverflow => ERROR_CODE_SUPPLY_OVERFLOW,
            NativeTokenError::BalanceOverflow => ERROR_CODE_BALANCE_OVERFLOW,
            NativeTokenError::InsufficientBalance => ERROR_CODE_INSUFFICIENT_BALANCE,
            NativeTokenError::MintDisabledPolicy => ERROR_CODE_MINT_DISABLED,
            NativeTokenError::InvalidAmount => ERROR_CODE_INVALID_AMOUNT,
            NativeTokenError::TransferLimitExceeded => ERROR_CODE_TRANSFER_LIMIT_EXCEEDED,
            NativeTokenError::NonceRegression => ERROR_CODE_NONCE_REGRESSION,
            NativeTokenError::ReplayDetected => ERROR_CODE_REPLAY_DETECTED,
            NativeTokenError::InvalidProofTag => ERROR_CODE_INVALID_PROOF_TAG,
            NativeTokenError::ProofTagTooLarge => ERROR_CODE_PROOF_TAG_TOO_LARGE,
            NativeTokenError::InvalidPolicy => ERROR_CODE_INVALID_POLICY,
        }
    }

    /// The receipt error code of this error.
    pub fn receipt_error_code(self) -> (r: u16)
        ensures
            r == self.receipt_code(),
    {
        match self {
            NativeTokenError::SupplyOverflow => ERROR_CODE_SUPPLY_OVERFLOW,
            NativeTokenError::BalanceOverflow => ERROR_CODE_BALANCE_OVERFLOW,
            NativeTokenError::InsufficientBalance => ERROR_CODE_INSUFFICIENT_BALANCE,
            NativeTokenError::MintDisabledPolicy => ERROR_CODE_MINT_DISABLED,
            NativeTokenError::InvalidAmount => ERROR_CODE_INVALID_AMOUNT,
            NativeTokenError::TransferLimitExceeded => ERROR_CODE_TRANSFER_LIMIT_EXCEEDED,
            NativeTokenError::NonceRegression => ERROR_CODE_NONCE_REGRESSION,
            NativeTokenError::ReplayDetected => ERROR_CODE_REPLAY_DETECTED,
            NativeTokenError::InvalidProofTag => ERROR_CODE_INVALID_PROOF_TAG,
            NativeTokenError::ProofTagTooLarge => ERROR_CODE_PROOF_TAG_TOO_LARGE,
            NativeTokenError::InvalidPolicy => ERROR_CODE_INVALID_POLICY,
        }
    }

    pub open spec fn message_text(self) -> Seq<char> {
        match self {
            NativeTokenError::SupplyOverflow => "native token supply overflow"@,
            NativeTokenError::BalanceOverflow => "native token balance overflow"@,
            NativeTokenError::InsufficientBalance => "insufficient native token balance"@,
            NativeTokenError::MintDisabledPolicy => "native token mint disabled by supply policy"@,
            NativeTokenError::InvalidAmount => "native token amount must be non-zero"@,
            NativeTokenError::TransferLimitExceeded => "native token transfer exceeds policy limit"@,
            NativeTokenError::NonceRegression => "native token transfer nonce is not strictly increasing"@,
            NativeTokenError::ReplayDetected => "native token transfer replay detected"@,
            NativeTokenError::InvalidProofTag => "native token proof tag must not be empty"@,
            NativeTokenError::ProofTagTooLarge => "native token proof tag exceeds policy limit"@,
            NativeTokenError::InvalidPolicy => "native token policy is internally invalid"@,
        }
    }

    /// Human-readable description of the error.
    pub fn message(self) -> (r: String)
        ensures
            r@ == self.message_text(),
    {
        let s = match self {
            NativeTokenError::SupplyOverflow => "native token supply overflow",
            NativeTokenError::BalanceOverflow => "native token balance overflow",
            NativeTokenError::InsufficientBalance => "insufficient native token balance",
            NativeTokenError::MintDisabledPolicy => "native token mint disabled by supply policy",
            NativeTokenError::InvalidAmount => "native token amount must be non-zero",
            NativeTokenError::TransferLimitExceeded => "native token transfer exceeds policy limit",
            NativeTokenError::NonceRegression => "native token transfer nonce is not strictly increasing",
            NativeTokenError::ReplayDetected => "native token transfer replay detected",
            NativeTokenError::InvalidProofTag => "native token proof tag must not be empty",
            NativeTokenError::ProofTagTooLarge => "native token proof tag exceeds policy limit",
            NativeTokenError::InvalidPolicy => "native token policy is internally invalid",
        };
        str_to_string(s)
    }
}

/// Deployment profiles of the native token policy.
#[derive(Debug, Clone, Copy, PartialEq, Eq, Hash, Structural)]
pub enum NativeTokenNetwork {
    Mainnet,
    Testnet,
    Devnet,
}

impl Default for NativeTokenNetwork {
    fn default() -> (r: Self)
        ensures
            r == NativeTokenNetwork::Mainnet,
    {
        NativeTokenNetwork::Mainnet
    }
}

/// Post-quantum and anti-replay transfer policy.
#[derive(Debug, Clone, PartialEq, Eq)]
pub struct NativeTokenQuantumPolicyV1 {
    pub signature_suite: String,
    pub anti_replay_domain: String,
    pub max_transfer_amount: u128,
    pub max_total_supply: u128,
    pub max_proof_tag_len: u32,
}

/// Static metadata and policy of the native token.
#[derive(Debug, Clone, PartialEq, Eq)]
pub struct NativeTokenPolicyV1 {
    pub version: u8,
    pub symbol: String,
    pub decimals: u8,
    pub supply_model: SupplyModel,
    pub network: NativeTokenNetwork,
    pub quantum_policy: NativeTokenQuantumPolicyV1,
}

/// The current policy schema.
pub type NativeTokenPolicy = NativeTokenPolicyV1;

/// The current quantum policy schema.
pub type NativeTokenQuantumPolicy = NativeTokenQuantumPolicyV1;

/// The signature suite of a network profile.
pub open spec fn network_suite(network: NativeTokenNetwork) -> Seq<char> {
    match network {
        NativeTokenNetwork::Mainnet => "ML-DSA-87+Ed25519"@,
        NativeTokenNetwork::Testnet => "ML-DSA-65+Ed25519"@,
        NativeTokenNetwork::Devnet => "ML-DSA-44+Ed25519"@,
    }
}

/// The anti-replay domain of a network profile.
pub open spec fn network_domain(network: NativeTokenNetwork) -> Seq<char> {
    match network {
        NativeTokenNetwork::Mainnet => "AOXC/NATIVE_TOKEN/MAINNET/V1"@,
        NativeTokenNetwork::Testnet => "AOXC/NATIVE_TOKEN/TESTNET/V1"@,
        NativeTokenNetwork::Devnet => "AOXC/NATIVE_TOKEN/DEVNET/V1"@,
    }
}

/// Per-transfer ceiling of a network profile.
pub open spec fn network_max_transfer(network: NativeTokenNetwork) -> u128 {
    match network {
        NativeTokenNetwork::Mainnet => (10_000_000 * ONE_TOKEN) as u128,
        NativeTokenNetwork::Testnet => (500_000_000 * ONE_TOKEN) as u128,
        NativeTokenNetwork::Devnet => u128::MAX,
    }
}

/// Total supply ceiling of a network profile.
pub open spec fn network_max_supply(network: NativeTokenNetwork) -> u128 {
    match network {
        NativeTokenNetwork::Mainnet => (10_000_000_000 * ONE_TOKEN) as u128,
        NativeTokenNetwork::Testnet => (100_000_000_000 * ONE_TOKEN) as u128,
        NativeTokenNetwork::Devnet => u128::MAX,
    }
}

/// Proof tag length limit of a network profile.
pub open spec fn network_max_proof_tag(network: NativeTokenNetwork) -> u32 {
    match network {
        NativeTokenNetwork::Devnet => 16384,
        _ => 4096,
    }
}

/// Whether a policy is self-consistent (the rules `validate` checks).
pub open spec fn policy_valid(p: NativeTokenPolicyV1) -> bool {
    &&& p.version == NATIVE_TOKEN_POLICY_VERSION
    &&& trim(p.symbol@) == NATIVE_TOKEN_SYMBOL@
    &&& p.decimals == 18
    &&& trim(p.quantum_policy.signature_suite@).len() != 0
    &&& trim(p.quantum_policy.anti_replay_domain@).len() != 0
    &&& p.quantum_policy.max_transfer_amount != 0
    &&& p.quantum_policy.max_total_supply != 0
    &&& p.quantum_policy.max_transfer_amount <= p.quantum_policy.max_total_supply
    &&& p.quantum_policy.max_proof_tag_len != 0
}

/// The outcome of checking a transfer amount against a policy.
pub open spec fn transfer_amount_check(p: NativeTokenPolicyV1, amount: u128) -> Result<(), NativeTokenError> {
    if amount == 0 {
        Err(NativeTokenError::InvalidAmount)
    } else if amount > p.quantum_policy.max_transfer_amount {
        Err(NativeTokenError::TransferLimitExceeded)
    } else {
        Ok(())
    }
}

/// The outcome of checking a proof tag against a policy.
pub open spec fn proof_tag_check(p: NativeTokenPolicyV1, tag_len: nat) -> Result<(), NativeTokenError> {
    if tag_len == 0 {
        Err(NativeTokenError::InvalidProofTag)
    } else if tag_len > p.quantum_policy.max_proof_tag_len {
        Err(NativeTokenError::ProofTagTooLarge)
    } else {
        Ok(())
    }
}

impl NativeTokenPolicyV1 {
    /// The canonical policy of a deployment profile.
    pub fn for_network(network: NativeTokenNetwork) -> (r: Self)
        ensures
            r.version == NATIVE_TOKEN_POLICY_VERSION,
            r.symbol@ == NATIVE_TOKEN_SYMBOL@,
            r.decimals == 18,
            r.supply_model == SupplyModel::GovernanceAuthorizedEmission,
            r.network == network,
            r.quantum_policy.signature_suite@ == network_suite(network),
            r.quantum_policy.anti_replay_domain@ == network_domain(network),
            r.quantum_policy.max_transfer_amount == network_max_transfer(network),
            r.quantum_policy.max_total_supply == network_max_supply(network),
            r.quantum_policy.max_proof_tag_len == network_max_proof_tag(network),
    {
        let quantum_policy = match network {
            NativeTokenNetwork::Mainnet => NativeTokenQuantumPolicyV1 {
                signature_suite: str_to_string("ML-DSA-87+Ed25519"),
                anti_replay_domain: str_to_string("AOXC/NATIVE_TOKEN/MAINNET/V1"),
                max_transfer_amount: 10_000_000 * ONE_TOKEN,
                max_total_supply: 10_000_000_000 * ONE_TOKEN,
                max_proof_tag_len: 4096,
            },
            NativeTokenNetwork::Testnet => NativeTokenQuantumPolicyV1 {
                signature_suite: str_to_string("ML-DSA-65+Ed25519"),
                anti_replay_domain: str_to_string("AOXC/NATIVE_TOKEN/TESTNET/V1"),
                max_transfer_amount: 500_000_000 * ONE_TOKEN,
                max_total_supply: 100_000_000_000 * ONE_TOKEN,
                max_proof_tag_len: 4096,
            },
            NativeTokenNetwork::Devnet => NativeTokenQuantumPolicyV1 {
                signature_suite: str_to_string("ML-DSA-44+Ed25519"),
                anti_replay_domain: str_to_string("AOXC/NATIVE_TOKEN/DEVNET/V1"),
                max_transfer_amount: u128::MAX,
                max_total_supply: u128::MAX,
                max_proof_tag_len: 16384,
            },
        };
        NativeTokenPolicyV1 {
            version: NATIVE_TOKEN_POLICY_VERSION,
            symbol: str_to_string(NATIVE_TOKEN_SYMBOL),
            decimals: 18,
            supply_model: SupplyModel::GovernanceAuthorizedEmission,
            network,
            quantum_policy,
        }
    }

    /// Whether the supply model allows minting.
    pub fn allows_mint(&self) -> (r: bool)
        ensures
            r == self.supply_model.emits(),
    {
        match self.supply_model {
            SupplyModel::GovernanceAuthorizedEmission | SupplyModel::ProgrammaticEmission
            | SupplyModel::TreasuryAuthorizedEmission => true,
            SupplyModel::FixedGenesis => false,
        }
    }

    /// Checks that the policy is self-consistent.
    pub fn validate(&self) -> (r: Result<(), NativeTokenError>)
        ensures
            r is Ok <==> policy_valid(*self),
            r matches Err(e) ==> e == NativeTokenError::InvalidPolicy,
    {
        if self.version != NATIVE_TOKEN_POLICY_VERSION {
            return Err(NativeTokenError::InvalidPolicy);
        }
        let symbol = chars_of(self.symbol.as_str());
        let trimmed = trim_chars(&symbol);
        let canonical = chars_of(NATIVE_TOKEN_SYMBOL);
        if !chars_eq(&trimmed, &canonical) {
            return Err(NativeTokenError::InvalidPolicy);
        }
        if self.decimals != 18 {
            return Err(NativeTokenError::InvalidPolicy);
        }
        let suite = chars_of(self.quantum_policy.signature_suite.as_str());
        let domain = chars_of(self.quantum_policy.anti_replay_domain.as_str());
        if is_blank(&suite) || is_blank(&domain) || self.quantum_policy.max_transfer_amount == 0
            || self.quantum_policy.max_total_supply == 0
            || self.quantum_policy.max_transfer_amount > self.quantum_policy.max_total_supply
            || self.quantum_policy.max_proof_tag_len == 0 {
            return Err(NativeTokenError::InvalidPolicy);
        }
        Ok(())
    }

    /// Checks a transfer amount: non-zero and within the transfer ceiling.
    pub fn validate_transfer_amount(&self, amount: u128) -> (r: Result<(), NativeTokenError>)
        ensures
            r == transfer_amount_check(*self, amount),
    {
        if amount == 0 {
            return Err(NativeTokenError::InvalidAmount);
        }
        if amount > self.quantum_policy.max_transfer_amount {
            return Err(NativeTokenError::TransferLimitExceeded);
        }
        Ok(())
    }

    /// Checks a mint amount; a single mint obeys the transfer ceiling.
    pub fn validate_mint_amount(&self, amount: u128) -> (r: Result<(), NativeTokenError>)
        ensures
            r == transfer_amount_check(*self, amount),
    {
        self.validate_transfer_amount(amount)
    }

    /// Checks a proof tag: non-empty and within the policy's length limit.
    pub fn validate_proof_tag(&self, proof_tag: &[u8]) -> (r: Result<(), NativeTokenError>)
        ensures
            r == proof_tag_check(*self, proof_tag@.len()),
    {
        if proof_tag.len() == 0 {
            return Err(NativeTokenError::InvalidProofTag);
        }
        if proof_tag.len() as u64 > self.quantum_policy.max_proof_tag_len as u64 {
            return Err(NativeTokenError::ProofTagTooLarge);
        }
        Ok(())
    }
}

impl Default for NativeTokenPolicyV1 {
    fn default() -> (r: Self)
        ensures
            r.network == NativeTokenNetwork::Mainnet,
            r.version == NATIVE_TOKEN_POLICY_VERSION,
            r.symbol@ == NATIVE_TOKEN_SYMBOL@,
            r.decimals == 18,
            r.supply_model == SupplyModel::GovernanceAuthorizedEmission,
            r.quantum_policy.signature_suite@ == network_suite(NativeTokenNetwork::Mainnet),
            r.quantum_policy.anti_replay_domain@ == network_domain(NativeTokenNetwork::Mainnet),
            r.quantum_policy.max_transfer_amount == network_max_transfer(NativeTokenNetwork::Mainnet),
            r.quantum_policy.max_total_supply == network_max_supply(NativeTokenNetwork::Mainnet),
            r.quantum_policy.max_proof_tag_len == network_max_proof_tag(NativeTokenNetwork::Mainnet),
    {
        NativeTokenPolicyV1::for_network(NativeTokenNetwork::Mainnet)
    }
}

/// Every canonical network policy is self-consistent.
pub proof fn law_network_policies_are_valid(p: NativeTokenPolicyV1, network: NativeTokenNetwork)
    requires
        p.version == NATIVE_TOKEN_POLICY_VERSION,
        p.symbol@ == NATIVE_TOKEN_SYMBOL@,
        p.decimals == 18,
        p.quantum_policy.signature_suite@ == network_suite(network),
        p.quantum_policy.anti_replay_domain@ == network_domain(network),
        p.quantum_policy.max_transfer_amount == network_max_transfer(network),
        p.quantum_policy.max_total_supply == network_max_supply(network),
        p.quantum_policy.max_proof_tag_len == network_max_proof_tag(network),
    ensures
        policy_valid(p),
{
    reveal_strlit("AOXC");
    reveal_strlit("ML-DSA-87+Ed25519");
    reveal_strlit("ML-DSA-65+Ed25519");
    reveal_strlit("ML-DSA-44+Ed25519");
    reveal_strlit("AOXC/NATIVE_TOKEN/MAINNET/V1");
    reveal_strlit("AOXC/NATIVE_TOKEN/TESTNET/V1");
    reveal_strlit("AOXC/NATIVE_TOKEN/DEVNET/V1");
    assert(trim(p.symbol@) == p.symbol@);
    assert(trim(p.quantum_policy.signature_suite@) == p.quantum_policy.signature_suite@);
    assert(trim(p.quantum_policy.anti_replay_domain@) == p.quantum_policy.anti_replay_domain@);
}

/// Versioned digest envelope of a quantum transfer's anti-replay binding.
#[derive(Debug, Clone, Copy, PartialEq, Eq)]
pub struct NativeQuantumTransferDigestV1 {
    pub version: u8,
    pub digest: [u8; 32],
}

/// The in-memory native token ledger record: policy, total supply,
/// balances, last-seen sender nonces and consumed quantum commitments.
#[derive(Debug, Default)]
pub struct NativeTokenLedger {
    pub policy: NativeTokenPolicy,
    pub total_supply: u128,
    pub balances: HashMap<[u8; 32], u128>,
    pub latest_nonce: HashMap<[u8; 32], u64>,
    pub consumed_quantum_commitments: HashSet<[u8; 32]>,
}

} // verus!
