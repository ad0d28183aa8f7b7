//! Interoperability boundary types: bounded ASCII identifiers, message keys
//! and the classification vocabulary kernel policy works with.

use vstd::prelude::*;

use crate::text::all_ascii;
use crate::text::all_zero;
use crate::text::byte_len;
use crate::text::byte_len_of;
use crate::text::chars_of;
use crate::text::is_all_ascii;
use crate::text::is_blank;
use crate::text::str_to_string;
use crate::text::trim;
use super::all_zero_bytes;

verus! {

/// Outcome of the common identifier check: blank, too long (bytes), not
/// ASCII, or fine.
#[derive(Debug, Clone, Copy, PartialEq, Eq, Structural)]
pub enum LabelCheck {
    Blank,
    TooLong,
    NotAscii,
    Fine,
}

pub open spec fn label_check(s: Seq<char>, max: nat) -> LabelCheck {
    if trim(s).len() == 0 {
        LabelCheck::Blank
    } else if byte_len(s) > max {
        LabelCheck::TooLong
    } else if !all_ascii(s) {
        LabelCheck::NotAscii
    } else {
        LabelCheck::Fine
    }
}

fn check_label(s: &str, max: usize) -> (r: LabelCheck)
    ensures
        r == label_check(s@, max as nat),
{
    let cs = chars_of(s);
    if is_blank(&cs) {
        return LabelCheck::Blank;
    }
    if byte_len_of(&cs) > max as u128 {
        return LabelCheck::TooLong;
    }
    if !is_all_ascii(&cs) {
        return LabelCheck::NotAscii;
    }
    LabelCheck::Fine
}

/// Foreign chain profile key (non-blank, at most 64 bytes, ASCII).
#[derive(Debug, Clone, PartialEq, Eq, Hash, PartialOrd, Ord)]
pub struct ChainProfileId(String);

impl View for ChainProfileId {
    type V = Seq<char>;

    closed spec fn view(&self) -> Seq<char> {
        self.0@
    }
}

impl ChainProfileId {
    pub fn new(id: &str) -> (r: Result<Self, KernelInteropError>)
        ensures
            match label_check(id@, 64) {
                LabelCheck::Blank => r == Err::<Self, KernelInteropError>(KernelInteropError::EmptyChainProfileId),
                LabelCheck::TooLong => r == Err::<Self, KernelInteropError>(KernelInteropError::ChainProfileIdTooLong),
                LabelCheck::NotAscii => r == Err::<Self, KernelInteropError>(KernelInteropError::ChainProfileIdNotAscii),
                LabelCheck::Fine => r is Ok && r->Ok_0@ == id@,
            },
    {
        match check_label(id, 64) {
            LabelCheck::Blank => Err(KernelInteropError::EmptyChainProfileId),
            LabelCheck::TooLong => Err(KernelInteropError::ChainProfileIdTooLong),
            LabelCheck::NotAscii => Err(KernelInteropError::ChainProfileIdNotAscii),
            LabelCheck::Fine => Ok(ChainProfileId(str_to_string(id))),
        }
    }

    pub fn as_str(&self) -> (r: &str)
        ensures
            r@ == self@,
    {
        self.0.as_str()
    }
}

/// Proof taxonomy understood by kernel policy.
#[derive(Debug, Clone, Copy, PartialEq, Eq, Structural, Hash)]
pub enum ProofType {
    HeaderCommitment,
    MerkleInclusion,
    SignatureQuorum,
    LightClientState,
    ValidityProof,
    FraudProof,
}

/// Compatibility classes of foreign execution families.
#[derive(Debug, Clone, Copy, PartialEq, Eq, Structural, Hash)]
pub enum ChainCompatibilityClass {
    EvmLike,
    UtxoLike,
    AccountBftLike,
    ObjectCapabilityLike,
    IbcLike,
    CustomConstrained,
}

/// Finality model classes.
#[derive(Debug, Clone, Copy, PartialEq, Eq, Structural, Hash)]
pub enum FinalityClass {
    DeterministicImmediate,
    ProbabilisticConfirmations,
    Checkpointed,
    EpochQuorum,
    OptimisticChallengeWindow,
}

/// Authority domain boundaries.
#[derive(Debug, Clone, Copy, PartialEq, Eq, Structural, Hash)]
pub enum AuthorityDomain {
    NativeValidatorSet,
    ContractGoverned,
    MultiSigCommittee,
    ExternalProtocolCouncil,
}

/// Settlement direction.
#[derive(Debug, Clone, Copy, PartialEq, Eq, Structural, Hash)]
pub enum SettlementDirection {
    Inbound,
    Outbound,
}

/// Identifier of a verified counterpart relationship (non-blank, at most
/// 96 bytes, ASCII).
#[derive(Debug, Clone, PartialEq, Eq, Hash, PartialOrd, Ord)]
pub struct CounterpartId(String);

impl View for CounterpartId {
    type V = Seq<char>;

    closed spec fn view(&self) -> Seq<char> {
        self.0@
    }
}

impl CounterpartId {
    pub fn new(id: &str) -> (r: Result<Self, KernelInteropError>)
        ensures
            match label_check(id@, 96) {
                LabelCheck::Blank => r == Err::<Self, KernelInteropError>(KernelInteropError::EmptyCounterpartId),
                LabelCheck::TooLong => r == Err::<Self, KernelInteropError>(KernelInteropError::CounterpartIdTooLong),
                LabelCheck::NotAscii => r == Err::<Self, KernelInteropError>(KernelInteropError::CounterpartIdNotAscii),
                LabelCheck::Fine => r is Ok && r->Ok_0@ == id@,
            },
    {
        match check_label(id, 96) {
            LabelCheck::Blank => Err(KernelInteropError::EmptyCounterpartId),
            LabelCheck::TooLong => Err(KernelInteropError::CounterpartIdTooLong),
            LabelCheck::NotAscii => Err(KernelInteropError::CounterpartIdNotAscii),
            LabelCheck::Fine => Ok(CounterpartId(str_to_string(id))),
        }
    }

    pub fn as_str(&self) -> (r: &str)
        ensures
            r@ == self@,
    {
        self.0.as_str()
    }
}

/// Remote entry gate identifier (non-blank, at most 96 bytes, ASCII).
#[derive(Debug, Clone, PartialEq, Eq, Hash, PartialOrd, Ord)]
pub struct RemoteGateId(String);

impl View for RemoteGateId {
    type V = Seq<char>;

    closed spec fn view(&self) -> Seq<char> {
        self.0@
    }
}

impl RemoteGateId {
    pub fn new(id: &str) -> (r: Result<Self, KernelInteropError>)
        ensures
            match label_check(id@, 96) {
                LabelCheck::Blank => r == Err::<Self, KernelInteropError>(KernelInteropError::EmptyRemoteGateId),
                LabelCheck::TooLong => r == Err::<Self, KernelInteropError>(KernelInteropError::RemoteGateIdTooLong),
                LabelCheck::NotAscii => r == Err::<Self, KernelInteropError>(KernelInteropError::RemoteGateIdNotAscii),
                LabelCheck::Fine => r is Ok && r->Ok_0@ == id@,
            },
    {
        match check_label(id, 96) {
            LabelCheck::Blank => Err(KernelInteropError::EmptyRemoteGateId),
            LabelCheck::TooLong => Err(KernelInteropError::RemoteGateIdTooLong),
            LabelCheck::NotAscii => Err(KernelInteropError::RemoteGateIdNotAscii),
            LabelCheck::Fine => Ok(RemoteGateId(str_to_string(id))),
        }
    }
}

/// Reference to a foreign canonical program and its local counterpart.
#[derive(Debug, Clone, PartialEq, Eq, Hash)]
pub struct VerifiedCounterpartRef {
    pub counterpart_id: CounterpartId,
    pub remote_chain_profile: ChainProfileId,
    pub remote_authority_domain: AuthorityDomain,
    pub remote_object_ref: String,
    pub remote_gate_id: RemoteGateId,
}

impl VerifiedCounterpartRef {
    /// The remote object reference must be non-blank, at most 192 bytes and ASCII.
    pub fn validate(&self) -> (r: Result<(), KernelInteropError>)
        ensures
            r == match label_check(self.remote_object_ref@, 192) {
                LabelCheck::Blank => Err(KernelInteropError::EmptyRemoteObjectRef),
                LabelCheck::TooLong => Err(KernelInteropError::RemoteObjectRefTooLong),
                LabelCheck::NotAscii => Err(KernelInteropError::RemoteObjectRefNotAscii),
                LabelCheck::Fine => Ok(()),
            },
    {
        match check_label(self.remote_object_ref.as_str(), 192) {
            LabelCheck::Blank => Err(KernelInteropError::EmptyRemoteObjectRef),
            LabelCheck::TooLong => Err(KernelInteropError::RemoteObjectRefTooLong),
            LabelCheck::NotAscii => Err(KernelInteropError::RemoteObjectRefNotAscii),
            LabelCheck::Fine => Ok(()),
        }
    }
}

/// Cross-chain message key for replay protection and domain separation.
#[derive(Debug, Clone, PartialEq, Eq, Hash)]
pub struct CrossChainMessageId {
    pub source_profile: ChainProfileId,
    pub destination_profile: ChainProfileId,
    pub source_nonce: u64,
    pub routing_tag: [u8; 16],
}

impl CrossChainMessageId {
    /// The nonce must be non-zero and the routing tag not all zero.
    pub fn validate(&self) -> (r: Result<(), KernelInteropError>)
        ensures
            r == if self.source_nonce == 0 {
                Err(KernelInteropError::ZeroSourceNonce)
            } else if all_zero_bytes(self.routing_tag@) {
                Err(KernelInteropError::ZeroRoutingTag)
            } else {
                Ok(())
            },
    {
        if self.source_nonce == 0 {
            return Err(KernelInteropError::ZeroSourceNonce);
        }
        if all_zero(self.routing_tag.as_slice()) {
            return Err(KernelInteropError::ZeroRoutingTag);
        }
        Ok(())
    }
}

/// Input surface for deterministic policy evaluation.
#[derive(Debug, Clone, PartialEq, Eq)]
pub struct SettlementContext {
    pub message_id: CrossChainMessageId,
    pub source_chain_compatibility: ChainCompatibilityClass,
    pub proof_type: ProofType,
    pub finality_class: FinalityClass,
    pub authority_domain: AuthorityDomain,
    pub direction: SettlementDirection,
    pub verified_counterpart: VerifiedCounterpartRef,
}

/// Kernel policy outcome emitted before execution dispatch.
#[derive(Debug, Clone, Copy, PartialEq, Eq, Structural)]
pub enum SettlementDecision {
    Accept,
    Defer,
    Reject,
}

/// Interaction status progression for paired remote/local coordination.
#[derive(Debug, Clone, Copy, PartialEq, Eq, Structural)]
pub enum RemoteInteractionStatus {
    Observed,
    Classified,
    CounterpartBound,
    AwaitingAcknowledgement,
    Acknowledged,
    Settled,
    Rejected,
    Expired,
}

/// Boundary contract for chain profile lookups.
pub trait ChainProfileRegistry {
    fn profile_exists(&self, profile_id: &ChainProfileId) -> bool;
}

/// Boundary contract for proof verification dispatch ownership.
pub trait ProofVerifierDispatcher {
    fn supports(&self, proof_type: ProofType) -> bool;
}

/// Boundary contract for policy decision ownership.
pub trait SettlementPolicyEngine {
    fn evaluate(&self, context: &SettlementContext) -> SettlementDecision;
}

/// Boundary contract for verified counterpart governance state.
pub trait VerifiedCounterpartRegistry {
    fn is_registered(&self, counterpart_id: &CounterpartId) -> bool;
}

/// Boundary contract for interaction progression.
pub trait RemoteInteractionTracker {
    fn current_status(&self, message_id: &CrossChainMessageId) -> Option<RemoteInteractionStatus>;
}

/// Interop boundary errors.
#[derive(Debug, Clone, Copy, PartialEq, Eq, Structural)]
pub enum KernelInteropError {
    EmptyChainProfileId,
    ChainProfileIdTooLong,
    ChainProfileIdNotAscii,
    EmptyCounterpartId,
    CounterpartIdTooLong,
    CounterpartIdNotAscii,
    EmptyRemoteGateId,
    RemoteGateIdTooLong,
    RemoteGateIdNotAscii,
    EmptyRemoteObjectRef,
    RemoteObjectRefTooLong,
    RemoteObjectRefNotAscii,
    ZeroSourceNonce,
    ZeroRoutingTag,
}

impl KernelInteropError {
    pub open spec fn message_text(&self) -> Seq<char> {
        match self {
            KernelInteropError::EmptyChainProfileId => "chain_profile_id must not be empty"@,
            KernelInteropError::ChainProfileIdTooLong => "chain_profile_id exceeds canonical maximum length"@,
            KernelInteropError::ChainProfileIdNotAscii => "chain_profile_id must be ASCII"@,
            KernelInteropError::EmptyCounterpartId => "counterpart_id must not be empty"@,
            KernelInteropError::CounterpartIdTooLong => "counterpart_id exceeds canonical maximum length"@,
            KernelInteropError::CounterpartIdNotAscii => "counterpart_id must be ASCII"@,
            KernelInteropError::EmptyRemoteGateId => "remote_gate_id must not be empty"@,
            KernelInteropError::RemoteGateIdTooLong => "remote_gate_id exceeds canonical maximum length"@,
            KernelInteropError::RemoteGateIdNotAscii => "remote_gate_id must be ASCII"@,
            KernelInteropError::EmptyRemoteObjectRef => "remote_object_ref must not be empty"@,
            KernelInteropError::RemoteObjectRefTooLong => "remote_object_ref exceeds canonical maximum length"@,
            KernelInteropError::RemoteObjectRefNotAscii => "remote_object_ref must be ASCII"@,
            KernelInteropError::ZeroSourceNonce => "source_nonce must not be zero"@,
            KernelInteropError::ZeroRoutingTag => "routing_tag must not be all zeroes"@,
        }
    }

    /// Human-readable description of the error.
    pub fn message(&self) -> (r: String)
        ensures
            r@ == self.message_text(),
    {
        match self {
            KernelInteropError::EmptyChainProfileId => str_to_string("chain_profile_id must not be empty"),
            KernelInteropError::ChainProfileIdTooLong => str_to_string("chain_profile_id exceeds canonical maximum length"),
            KernelInteropError::ChainProfileIdNotAscii => str_to_string("chain_profile_id must be ASCII"),
            KernelInteropError::EmptyCounterpartId => str_to_string("counterpart_id must not be empty"),
            KernelInteropError::CounterpartIdTooLong => str_to_string("counterpart_id exceeds canonical maximum length"),
            KernelInteropError::CounterpartIdNotAscii => str_to_string("counterpart_id must be ASCII"),
            KernelInteropError::EmptyRemoteGateId => str_to_string("remote_gate_id must not be empty"),
            KernelInteropError::RemoteGateIdTooLong => str_to_string("remote_gate_id exceeds canonical maximum length"),
            KernelInteropError::RemoteGateIdNotAscii => str_to_string("remote_gate_id must be ASCII"),
            KernelInteropError::EmptyRemoteObjectRef => str_to_string("remote_object_ref must not be empty"),
            KernelInteropError::RemoteObjectRefTooLong => str_to_string("remote_object_ref exceeds canonical maximum length"),
            KernelInteropError::RemoteObjectRefNotAscii => str_to_string("remote_object_ref must be ASCII"),
            KernelInteropError::ZeroSourceNonce => str_to_string("source_nonce must not be zero"),
            KernelInteropError::ZeroRoutingTag => str_to_string("routing_tag must not be all zeroes"),
        }
    }
}

} // verus!
