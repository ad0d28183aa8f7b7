//! HexaQuorum: multi-axis approval evaluation.
//!
//! Proofs are collected per actor and lane; a policy then asks for minimum
//! counts per lane, a minimum number of distinct actors, a minimum total
//! stake (each actor counted once, at its largest stake) and a minimum total
//! weight.

use vstd::prelude::*;

use crate::text::all_chars;
use crate::text::all_hex;
use crate::text::all_ident;
use crate::text::byte_len;
use crate::text::byte_len_of;
use crate::text::chars_of;
use crate::text::dec_digits;
use crate::text::has_outer_ws;
use crate::text::is_ascii_hexdigit;
use crate::text::is_blank;
use crate::text::is_ident_char;
use crate::text::push_decimal_u128;
use crate::text::push_decimal_u64;
use crate::text::push_str;
use crate::text::str_to_string;
use crate::text::string_from_chars;
use crate::text::trim;

verus! {

/// Maximum accepted actor identifier length (bytes) inside the engine.
pub const MAX_ACTOR_ID_LEN: usize = 128;

/// Maximum accepted signature payload length in hexadecimal characters.
pub const MAX_SIGNATURE_HEX_LEN: usize = 16384;

/// Canonical proof lanes: each lane is a distinct trust axis.
#[derive(Debug, Clone, Copy, PartialEq, Eq, Structural, PartialOrd, Ord, Hash)]
pub enum ApprovalLane {
    IdentitySig,
    DeviceSig,
    TimeLockSig,
    StakeLock,
    RoleProof,
    DaoCosign,
}

pub open spec fn lane_code(lane: ApprovalLane) -> Seq<char> {
    match lane {
        ApprovalLane::IdentitySig => "IDENTITY_SIG"@,
        ApprovalLane::DeviceSig => "DEVICE_SIG"@,
        ApprovalLane::TimeLockSig => "TIMELOCK_SIG"@,
        ApprovalLane::StakeLock => "STAKE_LOCK"@,
        ApprovalLane::RoleProof => "ROLE_PROOF"@,
        ApprovalLane::DaoCosign => "DAO_COSIGN"@,
    }
}

/// The six lanes in evaluation order.
pub open spec fn all_lanes() -> Seq<ApprovalLane> {
    seq![
        ApprovalLane::IdentitySig,
        ApprovalLane::DeviceSig,
        ApprovalLane::TimeLockSig,
        ApprovalLane::StakeLock,
        ApprovalLane::RoleProof,
        ApprovalLane::DaoCosign,
    ]
}

/// Lanes whose proofs must carry a signature.
pub open spec fn lane_needs_signature(lane: ApprovalLane) -> bool {
    match lane {
        ApprovalLane::IdentitySig | ApprovalLane::DeviceSig | ApprovalLane::TimeLockSig
        | ApprovalLane::DaoCosign => true,
        _ => false,
    }
}

impl ApprovalLane {
    /// Stable symbolic lane code.
    pub fn code(self) -> (r: &'static str)
        ensures
            r@ == lane_code(self),
    {
        match self {
            ApprovalLane::IdentitySig => "IDENTITY_SIG",
            ApprovalLane::DeviceSig => "DEVICE_SIG",
            ApprovalLane::TimeLockSig => "TIMELOCK_SIG",
            ApprovalLane::StakeLock => "STAKE_LOCK",
            ApprovalLane::RoleProof => "ROLE_PROOF",
            ApprovalLane::DaoCosign => "DAO_COSIGN",
        }
    }

    /// All lanes in deterministic evaluation order.
    pub fn all() -> (r: [ApprovalLane; 6])
        ensures
            r@ == all_lanes(),
    {
        let r = [
            ApprovalLane::IdentitySig,
            ApprovalLane::DeviceSig,
            ApprovalLane::TimeLockSig,
            ApprovalLane::StakeLock,
            ApprovalLane::RoleProof,
            ApprovalLane::DaoCosign,
        ];
        assert(r@ =~= all_lanes());
        r
    }
}

/// A proof submitted by an actor into one lane.
#[derive(Debug, Clone, PartialEq, Eq)]
pub struct ApprovalProof {
    pub actor_id: String,
    pub lane: ApprovalLane,
    pub signature: Option<String>,
    pub timestamp: u64,
    pub weight: u64,
    pub stake: u128,
}

/// HexaQuorum error surface.
#[derive(Debug, Clone, PartialEq, Eq, Structural)]
#[non_exhaustive]
pub enum HexaQuorumError {
    EmptyActorId,
    InvalidActorId,
    MissingSignatureForSignedLane,
    InvalidSignatureFormat,
    DuplicateActorLaneProof,
    InvalidWeight,
    InvalidTimestamp,
    InvalidStake,
    InvalidPolicy,
}

impl HexaQuorumError {
    pub open spec fn code_text(&self) -> Seq<char> {
        match self {
            HexaQuorumError::EmptyActorId => "HEXA_QUORUM_EMPTY_ACTOR_ID"@,
            HexaQuorumError::InvalidActorId => "HEXA_QUORUM_INVALID_ACTOR_ID"@,
            HexaQuorumError::MissingSignatureForSignedLane => "HEXA_QUORUM_MISSING_SIGNATURE_FOR_SIGNED_LANE"@,
            HexaQuorumError::InvalidSignatureFormat => "HEXA_QUORUM_INVALID_SIGNATURE_FORMAT"@,
            HexaQuorumError::DuplicateActorLaneProof => "HEXA_QUORUM_DUPLICATE_ACTOR_LANE_PROOF"@,
            HexaQuorumError::InvalidWeight => "HEXA_QUORUM_INVALID_WEIGHT"@,
            HexaQuorumError::InvalidTimestamp => "HEXA_QUORUM_INVALID_TIMESTAMP"@,
            HexaQuorumError::InvalidStake => "HEXA_QUORUM_INVALID_STAKE"@,
            HexaQuorumError::InvalidPolicy => "HEXA_QUORUM_INVALID_POLICY"@,
        }
    }

    /// Stable error code.
    pub fn code(&self) -> (r: &'static str)
        ensures
            r@ == self.code_text(),
    {
        match self {
            HexaQuorumError::EmptyActorId => "HEXA_QUORUM_EMPTY_ACTOR_ID",
            HexaQuorumError::InvalidActorId => "HEXA_QUORUM_INVALID_ACTOR_ID",
            HexaQuorumError::MissingSignatureForSignedLane => "HEXA_QUORUM_MISSING_SIGNATURE_FOR_SIGNED_LANE",
            HexaQuorumError::InvalidSignatureFormat => "HEXA_QUORUM_INVALID_SIGNATURE_FORMAT",
            HexaQuorumError::DuplicateActorLaneProof => "HEXA_QUORUM_DUPLICATE_ACTOR_LANE_PROOF",
            HexaQuorumError::InvalidWeight => "HEXA_QUORUM_INVALID_WEIGHT",
            HexaQuorumError::InvalidTimestamp => "HEXA_QUORUM_INVALID_TIMESTAMP",
            HexaQuorumError::InvalidStake => "HEXA_QUORUM_INVALID_STAKE",
            HexaQuorumError::InvalidPolicy => "HEXA_QUORUM_INVALID_POLICY",
        }
    }

    pub open spec fn message_text(&self) -> Seq<char> {
        match self {
            HexaQuorumError::EmptyActorId => "hexa quorum proof validation failed: actor_id must not be empty"@,
            HexaQuorumError::InvalidActorId => "hexa quorum proof validation failed: actor_id is not canonical"@,
            HexaQuorumError::MissingSignatureForSignedLane => "hexa quorum proof validation failed: signature is required for this lane"@,
            HexaQuorumError::InvalidSignatureFormat => "hexa quorum proof validation failed: signature format is invalid"@,
            HexaQuorumError::DuplicateActorLaneProof => "hexa quorum proof validation failed: duplicate actor proof in the same lane"@,
            HexaQuorumError::InvalidWeight => "hexa quorum proof validation failed: proof weight must be greater than zero"@,
            HexaQuorumError::InvalidTimestamp => "hexa quorum proof validation failed: timestamp must be greater than zero"@,
            HexaQuorumError::InvalidStake => "hexa quorum proof validation failed: stake value is invalid for this lane"@,
            HexaQuorumError::InvalidPolicy => "hexa quorum policy validation failed"@,
        }
    }

    /// Human-readable description of the error.
    pub fn message(&self) -> (r: String)
        ensures
            r@ == self.message_text(),
    {
        match self {
            HexaQuorumError::EmptyActorId => str_to_string("hexa quorum proof validation failed: actor_id must not be empty"),
            HexaQuorumError::InvalidActorId => str_to_string("hexa quorum proof validation failed: actor_id is not canonical"),
            HexaQuorumError::MissingSignatureForSignedLane => str_to_string("hexa quorum proof validation failed: signature is required for this lane"),
            HexaQuorumError::InvalidSignatureFormat => str_to_string("hexa quorum proof validation failed: signature format is invalid"),
            HexaQuorumError::DuplicateActorLaneProof => str_to_string("hexa quorum proof validation failed: duplicate actor proof in the same lane"),
            HexaQuorumError::InvalidWeight => str_to_string("hexa quorum proof validation failed: proof weight must be greater than zero"),
            HexaQuorumError::InvalidTimestamp => str_to_string("hexa quorum proof validation failed: timestamp must be greater than zero"),
            HexaQuorumError::InvalidStake => str_to_string("hexa quorum proof validation failed: stake value is invalid for this lane"),
            HexaQuorumError::InvalidPolicy => str_to_string("hexa quorum policy validation failed"),
        }
    }
}

pub open spec fn outcome(e: Option<HexaQuorumError>) -> Result<(), HexaQuorumError> {
    match e {
        Some(e) => Err(e),
        None => Ok(()),
    }
}

// ---------------------------------------------------------------------------
// Proof validation
// ---------------------------------------------------------------------------

/// The error for an actor identifier, if any: it must be non-blank, carry no
/// outer whitespace, be at most `MAX_ACTOR_ID_LEN` bytes and consist of
/// identifier characters.
pub open spec fn actor_id_error(s: Seq<char>) -> Option<HexaQuorumError> {
    if trim(s).len() == 0 {
        Some(HexaQuorumError::EmptyActorId)
    } else if trim(s) != s {
        Some(HexaQuorumError::InvalidActorId)
    } else if byte_len(s) > MAX_ACTOR_ID_LEN {
        Some(HexaQuorumError::InvalidActorId)
    } else if !all_chars(s, |c: char| is_ident_char(c)) {
        Some(HexaQuorumError::InvalidActorId)
    } else {
        None
    }
}

/// The error for a signature payload, if any: bounded, even-length,
/// hexadecimal text without outer whitespace.
pub open spec fn signature_error(s: Seq<char>) -> Option<HexaQuorumError> {
    if trim(s).len() == 0 {
        Some(HexaQuorumError::MissingSignatureForSignedLane)
    } else if trim(s) != s {
        Some(HexaQuorumError::InvalidSignatureFormat)
    } else if byte_len(s) > MAX_SIGNATURE_HEX_LEN || byte_len(s) % 2 != 0 {
        Some(HexaQuorumError::InvalidSignatureFormat)
    } else if !all_chars(s, |c: char| is_ascii_hexdigit(c)) {
        Some(HexaQuorumError::InvalidSignatureFormat)
    } else {
        None
    }
}

/// The first rule a proof breaks, in the order the engine checks them.
pub open spec fn proof_error(p: ApprovalProof) -> Option<HexaQuorumError> {
    if actor_id_error(p.actor_id@) is Some {
        actor_id_error(p.actor_id@)
    } else if p.timestamp == 0 {
        Some(HexaQuorumError::InvalidTimestamp)
    } else if p.weight == 0 {
        Some(HexaQuorumError::InvalidWeight)
    } else if lane_needs_signature(p.lane) && p.signature is None {
        Some(HexaQuorumError::MissingSignatureForSignedLane)
    } else if lane_needs_signature(p.lane) && signature_error(p.signature->0@) is Some {
        signature_error(p.signature->0@)
    } else if p.lane == ApprovalLane::StakeLock && p.stake == 0 {
        Some(HexaQuorumError::InvalidStake)
    } else {
        None
    }
}

fn validate_actor_id(actor_id: &str) -> (r: Result<(), HexaQuorumError>)
    ensures
        r == outcome(actor_id_error(actor_id@)),
{
    let cs = chars_of(actor_id);
    if is_blank(&cs) {
        return Err(HexaQuorumError::EmptyActorId);
    }
    if has_outer_ws(&cs) {
        return Err(HexaQuorumError::InvalidActorId);
    }
    if byte_len_of(&cs) > MAX_ACTOR_ID_LEN as u128 {
        return Err(HexaQuorumError::InvalidActorId);
    }
    if !all_ident(&cs) {
        return Err(HexaQuorumError::InvalidActorId);
    }
    Ok(())
}

fn validate_signature_hex(signature: &str) -> (r: Result<(), HexaQuorumError>)
    ensures
        r == outcome(signature_error(signature@)),
{
    let cs = chars_of(signature);
    if is_blank(&cs) {
        return Err(HexaQuorumError::MissingSignatureForSignedLane);
    }
    if has_outer_ws(&cs) {
        return Err(HexaQuorumError::InvalidSignatureFormat);
    }
    let n = byte_len_of(&cs);
    if n > MAX_SIGNATURE_HEX_LEN as u128 || n % 2 != 0 {
        return Err(HexaQuorumError::InvalidSignatureFormat);
    }
    if !all_hex(&cs) {
        return Err(HexaQuorumError::InvalidSignatureFormat);
    }
    Ok(())
}

fn lane_requires_signature(lane: ApprovalLane) -> (r: bool)
    ensures
        r == lane_needs_signature(lane),
{
    match lane {
        ApprovalLane::IdentitySig | ApprovalLane::DeviceSig | ApprovalLane::TimeLockSig
        | ApprovalLane::DaoCosign => true,
        _ => false,
    }
}

/// Validates a single proof before it is added to the accumulator.
pub fn validate_proof(proof: &ApprovalProof) -> (r: Result<(), HexaQuorumError>)
    ensures
        r == outcome(proof_error(*proof)),
{
    validate_actor_id(proof.actor_id.as_str())?;
    if proof.timestamp == 0 {
        return Err(HexaQuorumError::InvalidTimestamp);
    }
    if proof.weight == 0 {
        return Err(HexaQuorumError::InvalidWeight);
    }
    if lane_requires_signature(proof.lane) {
        match &proof.signature {
            None => {
                return Err(HexaQuorumError::MissingSignatureForSignedLane);
            },
            Some(signature) => {
                validate_signature_hex(signature.as_str())?;
            },
        }
    }
    if proof.lane == ApprovalLane::StakeLock && proof.stake == 0 {
        return Err(HexaQuorumError::InvalidStake);
    }
    Ok(())
}

impl ApprovalProof {
    /// Local semantic validation of the proof.
    pub fn validate(&self) -> (r: Result<(), HexaQuorumError>)
        ensures
            r == outcome(proof_error(*self)),
    {
        validate_proof(self)
    }

    /// Whether the proof carries a signature that is not blank.
    pub fn has_signature(&self) -> (r: bool)
        ensures
            r == (self.signature is Some && trim(self.signature->0@).len() != 0),
    {
        match &self.signature {
            Some(value) => {
                let cs = chars_of(value.as_str());
                !is_blank(&cs)
            },
            None => false,
        }
    }
}

// ---------------------------------------------------------------------------
// Policy
// ---------------------------------------------------------------------------

/// Policy definition for a HexaQuorum decision.
#[derive(Debug, Clone, PartialEq, Eq, Structural)]
pub struct QuorumPolicy {
    pub min_identity: u8,
    pub min_device: u8,
    pub min_timelock: u8,
    pub min_stake_lock: u8,
    pub min_role: u8,
    pub min_dao: u8,
    pub min_distinct_actors: u8,
    pub min_total_stake: u128,
    pub min_total_score: u64,
}

impl QuorumPolicy {
    pub open spec fn min_for(self, lane: ApprovalLane) -> u8 {
        match lane {
            ApprovalLane::IdentitySig => self.min_identity,
            ApprovalLane::DeviceSig => self.min_device,
            ApprovalLane::TimeLockSig => self.min_timelock,
            ApprovalLane::StakeLock => self.min_stake_lock,
            ApprovalLane::RoleProof => self.min_role,
            ApprovalLane::DaoCosign => self.min_dao,
        }
    }

    /// Balanced policy for general protected actions.
    pub fn strict_default() -> (r: Self)
        ensures
            r == (QuorumPolicy {
                min_identity: 2,
                min_device: 1,
                min_timelock: 1,
                min_stake_lock: 1,
                min_role: 1,
                min_dao: 1,
                min_distinct_actors: 2,
                min_total_stake: 1,
                min_total_score: 10,
            }),
    {
        QuorumPolicy {
            min_identity: 2,
            min_device: 1,
            min_timelock: 1,
            min_stake_lock: 1,
            min_role: 1,
            min_dao: 1,
            min_distinct_actors: 2,
            min_total_stake: 1,
            min_total_score: 10,
        }
    }

    /// Policy for sensitive treasury actions.
    pub fn treasury_default() -> (r: Self)
        ensures
            r == (QuorumPolicy {
                min_identity: 3,
                min_device: 2,
                min_timelock: 2,
                min_stake_lock: 2,
                min_role: 2,
                min_dao: 1,
                min_distinct_actors: 3,
                min_total_stake: 1_000,
                min_total_score: 25,
            }),
    {
        QuorumPolicy {
            min_identity: 3,
            min_device: 2,
            min_timelock: 2,
            min_stake_lock: 2,
            min_role: 2,
            min_dao: 1,
            min_distinct_actors: 3,
            min_total_stake: 1_000,
            min_total_score: 25,
        }
    }

    /// Policy for validator admission or rotation.
    pub fn validator_default() -> (r: Self)
        ensures
            r == (QuorumPolicy {
                min_identity: 2,
                min_device: 1,
                min_timelock: 1,
                min_stake_lock: 1,
                min_role: 2,
                min_dao: 1,
                min_distinct_actors: 2,
                min_total_stake: 500,
                min_total_score: 16,
            }),
    {
        QuorumPolicy {
            min_identity: 2,
            min_device: 1,
            min_timelock: 1,
            min_stake_lock: 1,
            min_role: 2,
            min_dao: 1,
            min_distinct_actors: 2,
            min_total_stake: 500,
            min_total_score: 16,
        }
    }

    /// Minimum required count for a lane.
    pub fn min_for_lane(&self, lane: ApprovalLane) -> (r: u8)
        ensures
            r == self.min_for(lane),
    {
        match lane {
            ApprovalLane::IdentitySig => self.min_identity,
            ApprovalLane::DeviceSig => self.min_device,
            ApprovalLane::TimeLockSig => self.min_timelock,
            ApprovalLane::StakeLock => self.min_stake_lock,
            ApprovalLane::RoleProof => self.min_role,
            ApprovalLane::DaoCosign => self.min_dao,
        }
    }

    /// A policy is valid when it asks for at least one distinct actor (which
    /// also makes at least one threshold active).
    pub fn validate(&self) -> (r: Result<(), HexaQuorumError>)
        ensures
            r is Ok <==> self.min_distinct_actors > 0,
            r is Err ==> r == Err::<(), HexaQuorumError>(HexaQuorumError::InvalidPolicy),
    {
        let lanes = ApprovalLane::all();
        let mut has_any_lane_requirement = false;
        for i in 0..6
            invariant
                lanes@ == all_lanes(),
        {
            if self.min_for_lane(lanes[i]) > 0 {
                has_any_lane_requirement = true;
            }
        }
        let has_any_global_requirement = self.min_distinct_actors > 0 || self.min_total_stake > 0
            || self.min_total_score > 0;
        if self.min_distinct_actors == 0 {
            return Err(HexaQuorumError::InvalidPolicy);
        }
        if !(has_any_lane_requirement || has_any_global_requirement) {
            return Err(HexaQuorumError::InvalidPolicy);
        }
        Ok(())
    }
}

impl Default for QuorumPolicy {
    fn default() -> (r: Self)
        ensures
            r == (QuorumPolicy {
                min_identity: 2,
                min_device: 1,
                min_timelock: 1,
                min_stake_lock: 1,
                min_role: 1,
                min_dao: 1,
                min_distinct_actors: 2,
                min_total_stake: 1,
                min_total_score: 10,
            }),
    {
        Self::strict_default()
    }
}

// ---------------------------------------------------------------------------
// Lane counts
// ---------------------------------------------------------------------------

/// Lane count snapshot used by result reporting.
#[derive(Debug, Clone, PartialEq, Eq, Structural)]
pub struct LaneCounts {
    pub identity: u8,
    pub device: u8,
    pub timelock: u8,
    pub stake_lock: u8,
    pub role: u8,
    pub dao: u8,
}

impl LaneCounts {
    pub open spec fn count_for(self, lane: ApprovalLane) -> u8 {
        match lane {
            ApprovalLane::IdentitySig => self.identity,
            ApprovalLane::DeviceSig => self.device,
            ApprovalLane::TimeLockSig => self.timelock,
            ApprovalLane::StakeLock => self.stake_lock,
            ApprovalLane::RoleProof => self.role,
            ApprovalLane::DaoCosign => self.dao,
        }
    }

    /// Count for a lane.
    pub fn get(&self, lane: ApprovalLane) -> (r: u8)
        ensures
            r == self.count_for(lane),
    {
        match lane {
            ApprovalLane::IdentitySig => self.identity,
            ApprovalLane::DeviceSig => self.device,
            ApprovalLane::TimeLockSig => self.timelock,
            ApprovalLane::StakeLock => self.stake_lock,
            ApprovalLane::RoleProof => self.role,
            ApprovalLane::DaoCosign => self.dao,
        }
    }

    /// Adds one to a lane's count, saturating at `u8::MAX`.
    pub fn increment(&mut self, lane: ApprovalLane)
        ensures
            final(self).count_for(lane) == sat_u8((old(self).count_for(lane) + 1) as nat),
            forall|other: ApprovalLane|
                other != lane ==> #[trigger] final(self).count_for(other) == old(self).count_for(
                    other,
                ),
    {
        match lane {
            ApprovalLane::IdentitySig => self.identity = self.identity.saturating_add(1),
            ApprovalLane::DeviceSig => self.device = self.device.saturating_add(1),
            ApprovalLane::TimeLockSig => self.timelock = self.timelock.saturating_add(1),
            ApprovalLane::StakeLock => self.stake_lock = self.stake_lock.saturating_add(1),
            ApprovalLane::RoleProof => self.role = self.role.saturating_add(1),
            ApprovalLane::DaoCosign => self.dao = self.dao.saturating_add(1),
        }
    }
}

impl Default for LaneCounts {
    fn default() -> (r: Self)
        ensures
            r == (LaneCounts { identity: 0, device: 0, timelock: 0, stake_lock: 0, role: 0, dao: 0 }),
    {
        LaneCounts { identity: 0, device: 0, timelock: 0, stake_lock: 0, role: 0, dao: 0 }
    }
}

pub open spec fn sat_u8(n: nat) -> u8 {
    if n > 255 {
        255
    } else {
        n as u8
    }
}

/// `min(n, cap)`: what a run of saturating additions of `n`'s parts yields.
pub open spec fn saturate(n: nat, cap: nat) -> nat {
    if n > cap {
        cap
    } else {
        n
    }
}

// ---------------------------------------------------------------------------
// Evaluation model
// ---------------------------------------------------------------------------

/// Number of proofs in `lane`.
pub open spec fn lane_count(ps: Seq<ApprovalProof>, lane: ApprovalLane) -> nat
    decreases ps.len(),
{
    if ps.len() == 0 {
        0
    } else {
        lane_count(ps.drop_last(), lane) + if ps.last().lane == lane {
            1nat
        } else {
            0nat
        }
    }
}

/// Per-lane counts, each saturated at `u8::MAX`.
pub open spec fn counts_of(ps: Seq<ApprovalProof>) -> LaneCounts {
    LaneCounts {
        identity: sat_u8(lane_count(ps, ApprovalLane::IdentitySig)),
        device: sat_u8(lane_count(ps, ApprovalLane::DeviceSig)),
        timelock: sat_u8(lane_count(ps, ApprovalLane::TimeLockSig)),
        stake_lock: sat_u8(lane_count(ps, ApprovalLane::StakeLock)),
        role: sat_u8(lane_count(ps, ApprovalLane::RoleProof)),
        dao: sat_u8(lane_count(ps, ApprovalLane::DaoCosign)),
    }
}

/// Proof `i` is the first one of its actor.
pub open spec fn first_of_actor(ps: Seq<ApprovalProof>, i: int) -> bool {
    forall|j: int| 0 <= j < i ==> #[trigger] ps[j].actor_id@ != ps[i].actor_id@
}

/// Number of distinct actors among the first `k` proofs.
pub open spec fn distinct_upto(ps: Seq<ApprovalProof>, k: int) -> nat
    decreases k,
{
    if k <= 0 {
        0
    } else {
        distinct_upto(ps, k - 1) + if first_of_actor(ps, k - 1) {
            1nat
        } else {
            0nat
        }
    }
}

/// Number of distinct actors that submitted proofs.
pub open spec fn distinct_actor_count(ps: Seq<ApprovalProof>) -> nat {
    distinct_upto(ps, ps.len() as int)
}

/// Largest stake an actor declared in any of its proofs (0 when none).
pub open spec fn max_stake_of(ps: Seq<ApprovalProof>, actor: Seq<char>) -> nat
    decreases ps.len(),
{
    if ps.len() == 0 {
        0
    } else {
        let rest = max_stake_of(ps.drop_last(), actor);
        if ps.last().actor_id@ == actor && ps.last().stake > rest {
            ps.last().stake as nat
        } else {
            rest
        }
    }
}

/// Sum, over the distinct actors among the first `k` proofs, of each actor's
/// largest stake among all proofs.
pub open spec fn stake_upto(ps: Seq<ApprovalProof>, k: int) -> nat
    decreases k,
{
    if k <= 0 {
        0
    } else {
        stake_upto(ps, k - 1) + if first_of_actor(ps, k - 1) {
            max_stake_of(ps, ps[k - 1].actor_id@)
        } else {
            0nat
        }
    }
}

/// Total stake: every actor counted once, at its largest stake.
pub open spec fn stake_total(ps: Seq<ApprovalProof>) -> nat {
    stake_upto(ps, ps.len() as int)
}

/// Sum of the proofs' weights.
pub open spec fn weight_total(ps: Seq<ApprovalProof>) -> nat
    decreases ps.len(),
{
    if ps.len() == 0 {
        0
    } else {
        weight_total(ps.drop_last()) + ps.last().weight as nat
    }
}

pub open spec fn lane_reason(lane: ApprovalLane, observed: u8, required: u8) -> Seq<char> {
    "lane "@ + lane_code(lane) + " below threshold: observed "@ + dec_digits(observed as nat)
        + " required "@ + dec_digits(required as nat)
}

/// Lanes among `lanes` whose observed count is below the policy minimum.
pub open spec fn missing_among(
    lanes: Seq<ApprovalLane>,
    counts: LaneCounts,
    policy: QuorumPolicy,
) -> Seq<ApprovalLane>
    decreases lanes.len(),
{
    if lanes.len() == 0 {
        seq![]
    } else {
        let rest = missing_among(lanes.drop_last(), counts, policy);
        let lane = lanes.last();
        if counts.count_for(lane) < policy.min_for(lane) {
            rest.push(lane)
        } else {
            rest
        }
    }
}

/// One rejection reason per lane among `lanes` below its minimum.
pub open spec fn lane_reasons_among(
    lanes: Seq<ApprovalLane>,
    counts: LaneCounts,
    policy: QuorumPolicy,
) -> Seq<Seq<char>>
    decreases lanes.len(),
{
    if lanes.len() == 0 {
        seq![]
    } else {
        let rest = lane_reasons_among(lanes.drop_last(), counts, policy);
        let lane = lanes.last();
        if counts.count_for(lane) < policy.min_for(lane) {
            rest.push(lane_reason(lane, counts.count_for(lane), policy.min_for(lane)))
        } else {
            rest
        }
    }
}

pub open spec fn actors_reason(observed: nat, required: u8) -> Seq<char> {
    "distinct actor threshold not met: observed "@ + dec_digits(observed) + " required "@
        + dec_digits(required as nat)
}

pub open spec fn stake_reason(observed: nat, required: u128) -> Seq<char> {
    "total stake threshold not met: observed "@ + dec_digits(observed) + " required "@
        + dec_digits(required as nat)
}

pub open spec fn score_reason(observed: nat, required: u64) -> Seq<char> {
    "total score threshold not met: observed "@ + dec_digits(observed) + " required "@
        + dec_digits(required as nat)
}

/// The rejection reasons of an evaluation, in the order they are reported.
pub open spec fn rejection_reasons_for(ps: Seq<ApprovalProof>, policy: QuorumPolicy) -> Seq<
    Seq<char>,
> {
    let counts = counts_of(ps);
    let distinct = distinct_actor_count(ps);
    let stake = saturate(stake_total(ps), u128::MAX as nat);
    let score = saturate(weight_total(ps), u64::MAX as nat);
    if policy.min_distinct_actors == 0 {
        seq!["policy invalid: "@ + "HEXA_QUORUM_INVALID_POLICY"@]
    } else {
        lane_reasons_among(all_lanes(), counts, policy) + (if distinct
            < policy.min_distinct_actors {
            seq![actors_reason(distinct, policy.min_distinct_actors)]
        } else {
            seq![]
        }) + (if stake < policy.min_total_stake {
            seq![stake_reason(stake, policy.min_total_stake)]
        } else {
            seq![]
        }) + (if score < policy.min_total_score {
            seq![score_reason(score, policy.min_total_score)]
        } else {
            seq![]
        })
    }
}

/// Lanes reported as missing by an evaluation.
pub open spec fn missing_lanes_for(ps: Seq<ApprovalProof>, policy: QuorumPolicy) -> Seq<
    ApprovalLane,
> {
    if policy.min_distinct_actors == 0 {
        seq![]
    } else {
        missing_among(all_lanes(), counts_of(ps), policy)
    }
}

/// Detailed evaluation result for a HexaQuorum decision.
#[derive(Debug, Clone, PartialEq, Eq)]
pub struct QuorumResult {
    pub passed: bool,
    pub distinct_actors: usize,
    pub total_score: u64,
    pub total_stake: u128,
    pub lane_counts: LaneCounts,
    pub missing_lanes: Vec<ApprovalLane>,
    pub rejection_reasons: Vec<String>,
}

pub open spec fn string_views(v: Seq<String>) -> Seq<Seq<char>> {
    v.map_values(|s: String| s@)
}

// ---------------------------------------------------------------------------
// Engine
// ---------------------------------------------------------------------------

/// No two proofs share an actor and a lane.
pub open spec fn unique_actor_lanes(ps: Seq<ApprovalProof>) -> bool {
    forall|i: int, j: int|
        0 <= i < j < ps.len() ==> !(#[trigger] ps[i].actor_id@ == #[trigger] ps[j].actor_id@
            && ps[i].lane == ps[j].lane)
}

/// The accumulator's invariant: every proof is valid and no actor has two
/// proofs in one lane.
pub open spec fn quorum_wf(ps: Seq<ApprovalProof>) -> bool {
    &&& forall|i: int| 0 <= i < ps.len() ==> proof_error(#[trigger] ps[i]) is None
    &&& unique_actor_lanes(ps)
}

/// Some proof of `ps` is by `actor` in `lane`.
pub open spec fn has_actor_lane(ps: Seq<ApprovalProof>, actor: Seq<char>, lane: ApprovalLane) -> bool {
    exists|i: int| 0 <= i < ps.len() && #[trigger] ps[i].actor_id@ == actor && ps[i].lane == lane
}

/// The first error adding `incoming` to `existing` one by one would hit: a
/// proof's own error first, then a duplicate against everything before it.
pub open spec fn batch_error(existing: Seq<ApprovalProof>, incoming: Seq<ApprovalProof>) -> Option<
    HexaQuorumError,
>
    decreases incoming.len(),
{
    if incoming.len() == 0 {
        None
    } else if proof_error(incoming[0]) is Some {
        proof_error(incoming[0])
    } else if has_actor_lane(existing, incoming[0].actor_id@, incoming[0].lane) {
        Some(HexaQuorumError::DuplicateActorLaneProof)
    } else {
        batch_error(existing.push(incoming[0]), incoming.drop_first())
    }
}

/// Canonical HexaQuorum engine: a basket of proofs.
#[derive(Debug, Clone)]
pub struct HexaQuorum {
    proofs: Vec<ApprovalProof>,
}

impl View for HexaQuorum {
    type V = Seq<ApprovalProof>;

    closed spec fn view(&self) -> Seq<ApprovalProof> {
        self.proofs@
    }
}

impl Default for HexaQuorum {
    fn default() -> (r: Self)
        ensures
            r@ == Seq::<ApprovalProof>::empty(),
    {
        HexaQuorum::new()
    }
}

fn lane_eq(a: ApprovalLane, b: ApprovalLane) -> (r: bool)
    ensures
        r == (a == b),
{
    a == b
}

/// Whether some proof of `ps` is by `actor` in `lane`.
fn contains_actor_lane(ps: &[ApprovalProof], actor: &String, lane: ApprovalLane) -> (r: bool)
    ensures
        r == has_actor_lane(ps@, actor@, lane),
{
    let n = ps.len();
    let mut i: usize = 0;
    while i < n
        invariant
            n == ps@.len(),
            i <= n,
            forall|j: int| 0 <= j < i ==> !(#[trigger] ps@[j].actor_id@ == actor@ && ps@[j].lane == lane),
        decreases n - i,
    {
        if ps[i].actor_id == *actor && lane_eq(ps[i].lane, lane) {
            assert(ps@[i as int].actor_id@ == actor@);
            return true;
        }
        i += 1;
    }
    false
}

proof fn lemma_wf_push(ps: Seq<ApprovalProof>, p: ApprovalProof)
    requires
        quorum_wf(ps),
        proof_error(p) is None,
        !has_actor_lane(ps, p.actor_id@, p.lane),
    ensures
        quorum_wf(ps.push(p)),
{
    let q = ps.push(p);
    assert forall|i: int| 0 <= i < q.len() implies proof_error(#[trigger] q[i]) is None by {
        if i < ps.len() {
            assert(q[i] == ps[i]);
        }
    }
    assert forall|i: int, j: int|
        0 <= i < j < q.len() implies !(#[trigger] q[i].actor_id@ == #[trigger] q[j].actor_id@
        && q[i].lane == q[j].lane) by {
        if j < ps.len() {
            assert(q[i] == ps[i] && q[j] == ps[j]);
        } else {
            assert(q[i] == ps[i]);
            if q[i].actor_id@ == q[j].actor_id@ && q[i].lane == q[j].lane {
                assert(ps[i].actor_id@ == p.actor_id@);
            }
        }
    }
}

impl HexaQuorum {
    /// An empty accumulator.
    pub fn new() -> (r: Self)
        ensures
            r@ == Seq::<ApprovalProof>::empty(),
    {
        HexaQuorum { proofs: Vec::new() }
    }

    /// Number of stored proofs.
    pub fn len(&self) -> (r: usize)
        ensures
            r == self@.len(),
    {
        self.proofs.len()
    }

    /// Whether no proof has been added.
    pub fn is_empty(&self) -> (r: bool)
        ensures
            r == (self@.len() == 0),
    {
        self.proofs.len() == 0
    }

    /// All stored proofs, in insertion order.
    pub fn proofs(&self) -> (r: &[ApprovalProof])
        ensures
            r@ == self@,
    {
        self.proofs.as_slice()
    }

    /// Adds a proof after validating it; a second proof from the same actor
    /// in the same lane is rejected. On error nothing changes.
    pub fn add_proof(&mut self, proof: ApprovalProof) -> (r: Result<(), HexaQuorumError>)
        ensures
            r == outcome(batch_error(old(self)@, seq![proof])),
            r is Ok ==> final(self)@ == old(self)@.push(proof),
            r is Err ==> final(self)@ == old(self)@,
            quorum_wf(old(self)@) ==> quorum_wf(final(self)@),
    {
        validate_proof(&proof)?;
        if contains_actor_lane(self.proofs.as_slice(), &proof.actor_id, proof.lane) {
            return Err(HexaQuorumError::DuplicateActorLaneProof);
        }
        proof {
            if quorum_wf(self@) {
                lemma_wf_push(self@, proof);
            }
            assert(seq![proof].drop_first() =~= Seq::<ApprovalProof>::empty());
            reveal_with_fuel(batch_error, 2);
        }
        self.proofs.push(proof);
        Ok(())
    }

    /// Adds several proofs atomically: if any proof is invalid or duplicates
    /// an `(actor, lane)` pair of the basket or of an earlier proof of the
    /// batch, none is added.
    pub fn add_proofs(&mut self, proofs: Vec<ApprovalProof>) -> (r: Result<(), HexaQuorumError>)
        ensures
            r == outcome(batch_error(old(self)@, proofs@)),
            r is Ok ==> final(self)@ == old(self)@ + proofs@,
            r is Err ==> final(self)@ == old(self)@,
            quorum_wf(old(self)@) ==> quorum_wf(final(self)@),
    {
        let mut incoming = proofs;
        let ghost base = self.proofs@;
        let n = incoming.len();
        let mut i: usize = 0;
        proof {
            assert(base + proofs@.take(0) =~= base);
            assert(proofs@.skip(0) =~= proofs@);
        }
        while i < n
            invariant
                n == incoming@.len(),
                incoming@ == proofs@,
                self.proofs@ == base,
                base == old(self)@,
                i <= n,
                batch_error(base, proofs@) == batch_error(
                    base + proofs@.take(i as int),
                    proofs@.skip(i as int),
                ),
                quorum_wf(base) ==> quorum_wf(base + proofs@.take(i as int)),
            decreases n - i,
        {
            let ghost seen = base + proofs@.take(i as int);
            let p = &incoming[i];
            let checked = validate_proof(p);
            if checked.is_err() {
                proof {
                    assert(proofs@.skip(i as int)[0] == proofs@[i as int]);
                }
                return checked;
            }
            let dup = contains_actor_lane(self.proofs.as_slice(), &p.actor_id, p.lane)
                || contains_actor_lane(&incoming.as_slice()[0..i], &p.actor_id, p.lane);
            proof {
                let rest = proofs@.skip(i as int);
                assert(rest[0] == proofs@[i as int]);
                assert(incoming@.subrange(0, i as int) =~= proofs@.take(i as int));
                if has_actor_lane(seen, p.actor_id@, p.lane) {
                    let k = choose|k: int|
                        0 <= k < seen.len() && #[trigger] seen[k].actor_id@ == p.actor_id@
                            && seen[k].lane == p.lane;
                    if k < base.len() {
                        assert(base[k] == seen[k]);
                        assert(has_actor_lane(base, p.actor_id@, p.lane));
                    } else {
                        assert(proofs@.take(i as int)[k - base.len()] == seen[k]);
                        assert(has_actor_lane(proofs@.take(i as int), p.actor_id@, p.lane));
                    }
                } else {
                    if has_actor_lane(base, p.actor_id@, p.lane) {
                        let k = choose|k: int|
                            0 <= k < base.len() && #[trigger] base[k].actor_id@ == p.actor_id@
                                && base[k].lane == p.lane;
                        assert(seen[k] == base[k]);
                    }
                    if has_actor_lane(proofs@.take(i as int), p.actor_id@, p.lane) {
                        let t = proofs@.take(i as int);
                        let k = choose|k: int|
                            0 <= k < t.len() && #[trigger] t[k].actor_id@ == p.actor_id@
                                && t[k].lane == p.lane;
                        assert(seen[base.len() + k] == t[k]);
                    }
                }
            }
            if dup {
                return Err(HexaQuorumError::DuplicateActorLaneProof);
            }
            proof {
                let rest = proofs@.skip(i as int);
                assert(rest.drop_first() =~= proofs@.skip(i + 1 as int));
                assert(seen.push(rest[0]) =~= base + proofs@.take(i + 1 as int));
                if quorum_wf(base) {
                    lemma_wf_push(seen, rest[0]);
                }
            }
            i += 1;
        }
        proof {
            assert(proofs@.take(n as int) =~= proofs@);
            assert(proofs@.skip(n as int) =~= Seq::<ApprovalProof>::empty());
        }
        self.proofs.append(&mut incoming);
        Ok(())
    }

    /// Removes every proof.
    pub fn clear(&mut self)
        ensures
            final(self)@ == Seq::<ApprovalProof>::empty(),
    {
        self.proofs.clear();
    }

    /// Evaluates the basket against a policy.
    pub fn evaluate(&self, policy: &QuorumPolicy) -> (r: QuorumResult)
        ensures
            r.lane_counts == counts_of(self@),
            r.distinct_actors == distinct_actor_count(self@),
            r.total_score == saturate(weight_total(self@), u64::MAX as nat),
            r.total_stake == saturate(stake_total(self@), u128::MAX as nat),
            r.missing_lanes@ == missing_lanes_for(self@, *policy),
            string_views(r.rejection_reasons@) == rejection_reasons_for(self@, *policy),
            r.passed == (rejection_reasons_for(self@, *policy).len() == 0),
    {
        let ps = self.proofs.as_slice();
        let lane_counts = count_lanes(ps);
        let (distinct, total_stake) = distinct_and_stake(ps);
        let total_score = sum_weights(ps);
        let mut missing_lanes: Vec<ApprovalLane> = Vec::new();
        let mut rejection_reasons: Vec<String> = Vec::new();
        let ghost pol = *policy;

        if let Err(error) = policy.validate() {
            let mut text: Vec<char> = Vec::new();
            push_str(&mut text, "policy invalid: ");
            push_str(&mut text, error.code());
            rejection_reasons.push(string_from_chars(&text));
            proof {
                assert(string_views(rejection_reasons@) =~= rejection_reasons_for(self@, pol));
            }
            return QuorumResult {
                passed: false,
                distinct_actors: distinct,
                total_score,
                total_stake,
                lane_counts,
                missing_lanes,
                rejection_reasons,
            };
        }
        let lanes = ApprovalLane::all();
        let mut k: usize = 0;
        while k < 6
            invariant
                lanes@ == all_lanes(),
                k <= 6,
                missing_lanes@ == missing_among(all_lanes().take(k as int), lane_counts, pol),
                string_views(rejection_reasons@) == lane_reasons_among(
                    all_lanes().take(k as int),
                    lane_counts,
                    pol,
                ),
                pol == *policy,
            decreases 6 - k,
        {
            let lane = lanes[k];
            let observed = lane_counts.get(lane);
            let required = policy.min_for_lane(lane);
            proof {
                assert(all_lanes().take(k + 1 as int).drop_last() =~= all_lanes().take(k as int));
                assert(all_lanes().take(k + 1 as int).last() == lane);
            }
            if observed < required {
                missing_lanes.push(lane);
                let mut text: Vec<char> = Vec::new();
                push_str(&mut text, "lane ");
                push_str(&mut text, lane.code());
                push_str(&mut text, " below threshold: observed ");
                push_decimal_u64(&mut text, observed as u64);
                push_str(&mut text, " required ");
                push_decimal_u64(&mut text, required as u64);
                let ghost old_reasons = rejection_reasons@;
                rejection_reasons.push(string_from_chars(&text));
                proof {
                    assert(text@ =~= lane_reason(lane, observed, required));
                    assert(string_views(rejection_reasons@) =~= string_views(old_reasons).push(
                        text@,
                    ));
                }
            }
            k += 1;
        }
        proof {
            assert(all_lanes().take(6) =~= all_lanes());
        }
        let ghost lane_part = string_views(rejection_reasons@);
        if distinct < policy.min_distinct_actors as usize {
            let mut text: Vec<char> = Vec::new();
            push_str(&mut text, "distinct actor threshold not met: observed ");
            push_decimal_u64(&mut text, distinct as u64);
            push_str(&mut text, " required ");
            push_decimal_u64(&mut text, policy.min_distinct_actors as u64);
            let ghost old_reasons = rejection_reasons@;
            rejection_reasons.push(string_from_chars(&text));
            proof {
                assert(text@ =~= actors_reason(distinct as nat, pol.min_distinct_actors));
                assert(string_views(rejection_reasons@) =~= string_views(old_reasons).push(text@));
            }
        }
        let ghost actor_part = string_views(rejection_reasons@);
        if total_stake < policy.min_total_stake {
            let mut text: Vec<char> = Vec::new();
            push_str(&mut text, "total stake threshold not met: observed ");
            push_decimal_u128(&mut text, total_stake);
            push_str(&mut text, " required ");
            push_decimal_u128(&mut text, policy.min_total_stake);
            let ghost old_reasons = rejection_reasons@;
            rejection_reasons.push(string_from_chars(&text));
            proof {
                assert(text@ =~= stake_reason(total_stake as nat, pol.min_total_stake));
                assert(string_views(rejection_reasons@) =~= string_views(old_reasons).push(text@));
            }
        }
        let ghost stake_part = string_views(rejection_reasons@);
        if total_score < policy.min_total_score {
            let mut text: Vec<char> = Vec::new();
            push_str(&mut text, "total score threshold not met: observed ");
            push_decimal_u64(&mut text, total_score);
            push_str(&mut text, " required ");
            push_decimal_u64(&mut text, policy.min_total_score);
            let ghost old_reasons = rejection_reasons@;
            rejection_reasons.push(string_from_chars(&text));
            proof {
                assert(text@ =~= score_reason(total_score as nat, pol.min_total_score));
                assert(string_views(rejection_reasons@) =~= string_views(old_reasons).push(text@));
            }
        }
        proof {
            let counts = counts_of(self@);
            let expected = rejection_reasons_for(self@, pol);
            assert(expected =~= string_views(rejection_reasons@));
        }
        let passed = rejection_reasons.len() == 0;
        QuorumResult {
            passed,
            distinct_actors: distinct,
            total_score,
            total_stake,
            lane_counts,
            missing_lanes,
            rejection_reasons,
        }
    }
}

fn count_lanes(ps: &[ApprovalProof]) -> (r: LaneCounts)
    ensures
        r == counts_of(ps@),
{
    let mut counts = LaneCounts { identity: 0, device: 0, timelock: 0, stake_lock: 0, role: 0, dao: 0 };
    let n = ps.len();
    let mut i: usize = 0;
    proof {
        assert(ps@.take(0) =~= Seq::<ApprovalProof>::empty());
    }
    while i < n
        invariant
            n == ps@.len(),
            i <= n,
            counts == counts_of(ps@.take(i as int)),
        decreases n - i,
    {
        let ghost before = counts;
        counts.increment(ps[i].lane);
        proof {
            let t = ps@.take(i + 1 as int);
            assert(t.drop_last() =~= ps@.take(i as int));
            assert(t.last() == ps@[i as int]);
            let lane = ps@[i as int].lane;
            assert(counts.count_for(lane) == sat_u8(lane_count(t, lane)));
            assert(counts.count_for(ApprovalLane::IdentitySig) == sat_u8(lane_count(t, ApprovalLane::IdentitySig)));
            assert(counts.count_for(ApprovalLane::DeviceSig) == sat_u8(lane_count(t, ApprovalLane::DeviceSig)));
            assert(counts.count_for(ApprovalLane::TimeLockSig) == sat_u8(lane_count(t, ApprovalLane::TimeLockSig)));
            assert(counts.count_for(ApprovalLane::StakeLock) == sat_u8(lane_count(t, ApprovalLane::StakeLock)));
            assert(counts.count_for(ApprovalLane::RoleProof) == sat_u8(lane_count(t, ApprovalLane::RoleProof)));
            assert(counts.count_for(ApprovalLane::DaoCosign) == sat_u8(lane_count(t, ApprovalLane::DaoCosign)));
        }
        i += 1;
    }
    proof {
        assert(ps@.take(n as int) =~= ps@);
    }
    counts
}

fn is_first_of_actor(ps: &[ApprovalProof], i: usize) -> (r: bool)
    requires
        i < ps@.len(),
    ensures
        r == first_of_actor(ps@, i as int),
{
    let mut j: usize = 0;
    while j < i
        invariant
            i < ps@.len(),
            j <= i,
            forall|k: int| 0 <= k < j ==> #[trigger] ps@[k].actor_id@ != ps@[i as int].actor_id@,
        decreases i - j,
    {
        if ps[j].actor_id == ps[i].actor_id {
            assert(ps@[j as int].actor_id@ == ps@[i as int].actor_id@);
            return false;
        }
        j += 1;
    }
    true
}

proof fn lemma_max_stake_bound(ps: Seq<ApprovalProof>, actor: Seq<char>)
    ensures
        max_stake_of(ps, actor) <= u128::MAX,
    decreases ps.len(),
{
    if ps.len() > 0 {
        lemma_max_stake_bound(ps.drop_last(), actor);
    }
}

fn max_stake(ps: &[ApprovalProof], actor: &String) -> (m: u128)
    ensures
        m == max_stake_of(ps@, actor@),
{
    let n = ps.len();
    let mut m: u128 = 0;
    let mut i: usize = 0;
    proof {
        assert(ps@.take(0) =~= Seq::<ApprovalProof>::empty());
    }
    while i < n
        invariant
            n == ps@.len(),
            i <= n,
            m == max_stake_of(ps@.take(i as int), actor@),
        decreases n - i,
    {
        proof {
            let t = ps@.take(i + 1 as int);
            assert(t.drop_last() =~= ps@.take(i as int));
            assert(t.last() == ps@[i as int]);
        }
        if ps[i].actor_id == *actor && ps[i].stake > m {
            m = ps[i].stake;
        }
        i += 1;
    }
    proof {
        assert(ps@.take(n as int) =~= ps@);
    }
    m
}

proof fn lemma_distinct_le(ps: Seq<ApprovalProof>, k: int)
    ensures
        distinct_upto(ps, k) <= if k < 0 {
            0
        } else {
            k
        },
    decreases k,
{
    if k > 0 {
        lemma_distinct_le(ps, k - 1);
    }
}

fn distinct_and_stake(ps: &[ApprovalProof]) -> (r: (usize, u128))
    ensures
        r.0 == distinct_actor_count(ps@),
        r.1 == saturate(stake_total(ps@), u128::MAX as nat),
{
    let n = ps.len();
    let mut distinct: usize = 0;
    let mut total: u128 = 0;
    let mut i: usize = 0;
    while i < n
        invariant
            n == ps@.len(),
            i <= n,
            distinct == distinct_upto(ps@, i as int),
            total == saturate(stake_upto(ps@, i as int), u128::MAX as nat),
        decreases n - i,
    {
        proof {
            lemma_distinct_le(ps@, i as int);
        }
        if is_first_of_actor(ps, i) {
            let m = max_stake(ps, &ps[i].actor_id);
            total = total.saturating_add(m);
            distinct = distinct + 1;
        }
        i += 1;
    }
    (distinct, total)
}

fn sum_weights(ps: &[ApprovalProof]) -> (r: u64)
    ensures
        r == saturate(weight_total(ps@), u64::MAX as nat),
{
    let n = ps.len();
    let mut total: u64 = 0;
    let mut i: usize = 0;
    proof {
        assert(ps@.take(0) =~= Seq::<ApprovalProof>::empty());
    }
    while i < n
        invariant
            n == ps@.len(),
            i <= n,
            total == saturate(weight_total(ps@.take(i as int)), u64::MAX as nat),
        decreases n - i,
    {
        proof {
            let t = ps@.take(i + 1 as int);
            assert(t.drop_last() =~= ps@.take(i as int));
            assert(t.last() == ps@[i as int]);
        }
        total = total.saturating_add(ps[i].weight);
        i += 1;
    }
    proof {
        assert(ps@.take(n as int) =~= ps@);
    }
    total
}

/// Adding `incoming` to `existing` meets no error exactly when every proof
/// of `incoming` is valid and no actor has two proofs in one lane among the
/// proofs of `existing` and `incoming` together.
proof fn lemma_batch_error_none(existing: Seq<ApprovalProof>, incoming: Seq<ApprovalProof>)
    requires
        unique_actor_lanes(existing),
    ensures
        batch_error(existing, incoming) is None <==> ((forall|i: int|
            0 <= i < incoming.len() ==> proof_error(#[trigger] incoming[i]) is None)
            && unique_actor_lanes(existing + incoming)),
    decreases incoming.len(),
{
    if incoming.len() > 0 {
        let x = incoming[0];
        let all = existing + incoming;
        let n = existing.len() as int;
        assert(all[n] == x);
        if proof_error(x) is Some {
        } else if has_actor_lane(existing, x.actor_id@, x.lane) {
            let i = choose|i: int|
                0 <= i < existing.len() && #[trigger] existing[i].actor_id@ == x.actor_id@
                    && existing[i].lane == x.lane;
            assert(all[i] == existing[i]);
        } else {
            let e2 = existing.push(x);
            let rest = incoming.drop_first();
            assert forall|i: int, j: int|
                0 <= i < j < e2.len() implies !(#[trigger] e2[i].actor_id@ == #[trigger] e2[j].actor_id@
                && e2[i].lane == e2[j].lane) by {
                if j == n {
                    assert(e2[i] == existing[i]);
                    if e2[i].actor_id@ == x.actor_id@ && e2[i].lane == x.lane {
                        assert(has_actor_lane(existing, x.actor_id@, x.lane));
                    }
                } else {
                    assert(e2[i] == existing[i] && e2[j] == existing[j]);
                }
            }
            lemma_batch_error_none(e2, rest);
            assert(e2 + rest =~= all);
            assert((forall|i: int| 0 <= i < incoming.len() ==> proof_error(#[trigger] incoming[i]) is None)
                <==> (forall|i: int| 0 <= i < rest.len() ==> proof_error(#[trigger] rest[i]) is None)) by {
                if forall|i: int| 0 <= i < rest.len() ==> proof_error(#[trigger] rest[i]) is None {
                    assert forall|i: int| 0 <= i < incoming.len() implies proof_error(
                        #[trigger] incoming[i],
                    ) is None by {
                        if i > 0 {
                            assert(incoming[i] == rest[i - 1]);
                        }
                    }
                }
                if forall|i: int| 0 <= i < incoming.len() ==> proof_error(#[trigger] incoming[i]) is None {
                    assert forall|i: int| 0 <= i < rest.len() implies proof_error(#[trigger] rest[i]) is None by {
                        assert(rest[i] == incoming[i + 1]);
                    }
                }
            }
        }
    } else {
        assert(existing + incoming =~= existing);
    }
}

/// Adding a batch to a well-formed basket succeeds exactly when every proof
/// of the batch is valid and no actor has two proofs in one lane among the
/// basket and the batch together; otherwise the error is that of the first
/// offending proof in batch order (`batch_error`).
pub proof fn law_add_proofs_success_iff(existing: Seq<ApprovalProof>, incoming: Seq<ApprovalProof>)
    requires
        quorum_wf(existing),
    ensures
        batch_error(existing, incoming) is None <==> ((forall|i: int|
            0 <= i < incoming.len() ==> proof_error(#[trigger] incoming[i]) is None)
            && unique_actor_lanes(existing + incoming)),
{
    lemma_batch_error_none(existing, incoming);
}

} // verus!
