//! Protocol vocabulary (modules, sovereign roots, chain families, fee
//! classes) and the cross-module message envelope.

pub mod envelope;
pub mod interop;

use vstd::prelude::*;
use vstd::utf8::encode_utf8;

use crate::crypto::blake3;
use crate::crypto::blake3_digest;
use crate::text::all_zero;
use crate::text::chars_of;
use crate::text::is_blank;
use crate::text::le_u64;
use crate::text::push_bytes;
use crate::text::push_le_u64;
use crate::text::push_str_bytes;
use crate::text::trim;

verus! {

/// Namespace hashed in front of every envelope.
pub const PROTOCOL_MESSAGE_NAMESPACE: &'static str = "AOXC/PROTOCOL/MESSAGE_ENVELOPE";

/// Version byte of the envelope hash layout.
pub const MESSAGE_ENVELOPE_HASH_VERSION: u8 = 1;

/// First-class AOXC modules.
#[derive(Debug, Clone, Copy, PartialEq, Eq, Structural, Hash, PartialOrd, Ord)]
pub enum ModuleId {
    RelayCore,
    Identity,
    Asset,
    Execution,
    Interop,
    Proof,
}

pub open spec fn module_name(m: ModuleId) -> Seq<char> {
    match m {
        ModuleId::RelayCore => "relay_core"@,
        ModuleId::Identity => "identity"@,
        ModuleId::Asset => "asset"@,
        ModuleId::Execution => "execution"@,
        ModuleId::Interop => "interop"@,
        ModuleId::Proof => "proof"@,
    }
}

impl ModuleId {
    /// Canonical name (part of the hash domain).
    pub fn as_str(self) -> (r: &'static str)
        ensures
            r@ == module_name(self),
    {
        match self {
            ModuleId::RelayCore => "relay_core",
            ModuleId::Identity => "identity",
            ModuleId::Asset => "asset",
            ModuleId::Execution => "execution",
            ModuleId::Interop => "interop",
            ModuleId::Proof => "proof",
        }
    }
}

/// Constitutional sovereign domains.
#[derive(Debug, Clone, Copy, PartialEq, Eq, Structural, Hash, PartialOrd, Ord)]
pub enum SovereignRoot {
    Identity,
    Supply,
    Governance,
    Relay,
    Security,
    Settlement,
    Treasury,
}

pub open spec fn root_name(r: SovereignRoot) -> Seq<char> {
    match r {
        SovereignRoot::Identity => "identity"@,
        SovereignRoot::Supply => "supply"@,
        SovereignRoot::Governance => "governance"@,
        SovereignRoot::Relay => "relay"@,
        SovereignRoot::Security => "security"@,
        SovereignRoot::Settlement => "settlement"@,
        SovereignRoot::Treasury => "treasury"@,
    }
}

impl SovereignRoot {
    /// Canonical name.
    pub fn as_str(self) -> (r: &'static str)
        ensures
            r@ == root_name(self),
    {
        match self {
            SovereignRoot::Identity => "identity",
            SovereignRoot::Supply => "supply",
            SovereignRoot::Governance => "governance",
            SovereignRoot::Relay => "relay",
            SovereignRoot::Security => "security",
            SovereignRoot::Settlement => "settlement",
            SovereignRoot::Treasury => "treasury",
        }
    }
}

/// Execution families of chain targets.
#[derive(Debug, Clone, Copy, PartialEq, Eq, Structural, Hash, PartialOrd, Ord)]
pub enum ChainFamily {
    Relay,
    Evm,
    Solana,
    Utxo,
    Ibc,
    Object,
    Wasm,
}

pub open spec fn family_name(f: ChainFamily) -> Seq<char> {
    match f {
        ChainFamily::Relay => "relay"@,
        ChainFamily::Evm => "evm"@,
        ChainFamily::Solana => "solana"@,
        ChainFamily::Utxo => "utxo"@,
        ChainFamily::Ibc => "ibc"@,
        ChainFamily::Object => "object"@,
        ChainFamily::Wasm => "wasm"@,
    }
}

impl ChainFamily {
    /// Canonical name (part of the hash domain).
    pub fn as_str(self) -> (r: &'static str)
        ensures
            r@ == family_name(self),
    {
        match self {
            ChainFamily::Relay => "relay",
            ChainFamily::Evm => "evm",
            ChainFamily::Solana => "solana",
            ChainFamily::Utxo => "utxo",
            ChainFamily::Ibc => "ibc",
            ChainFamily::Object => "object",
            ChainFamily::Wasm => "wasm",
        }
    }
}

/// Coarse fee policy class.
#[derive(Debug, Clone, Copy, PartialEq, Eq, Structural, Hash, PartialOrd, Ord)]
pub enum FeeClass {
    System,
    Standard,
    Priority,
}

pub open spec fn fee_name(f: FeeClass) -> Seq<char> {
    match f {
        FeeClass::System => "system"@,
        FeeClass::Standard => "standard"@,
        FeeClass::Priority => "priority"@,
    }
}

impl FeeClass {
    /// Canonical name (part of the hash domain).
    pub fn as_str(self) -> (r: &'static str)
        ensures
            r@ == fee_name(self),
    {
        match self {
            FeeClass::System => "system",
            FeeClass::Standard => "standard",
            FeeClass::Priority => "priority",
        }
    }
}

/// Cross-module message envelope.
#[derive(Debug, Clone, PartialEq, Eq)]
pub struct MessageEnvelope {
    pub source_module: ModuleId,
    pub destination_module: ModuleId,
    pub source_chain_family: ChainFamily,
    pub target_chain_family: ChainFamily,
    pub nonce: u64,
    pub payload_type: String,
    pub payload_hash: [u8; 32],
    pub proof_reference: Option<[u8; 32]>,
    pub fee_class: FeeClass,
    pub expiry: Option<u64>,
    pub replay_protection_tag: [u8; 16],
}

pub open spec fn all_zero_bytes(b: Seq<u8>) -> bool {
    forall|i: int| 0 <= i < b.len() ==> b[i] == 0
}

/// The message `validate` reports, if any.
pub open spec fn envelope_problem(e: MessageEnvelope) -> Option<Seq<char>> {
    if e.source_module == e.destination_module {
        Some("source_module and destination_module must differ"@)
    } else if trim(e.payload_type@).len() == 0 {
        Some("payload_type must not be empty"@)
    } else if all_zero_bytes(e.replay_protection_tag@) {
        Some("replay_protection_tag must not be zero"@)
    } else {
        None
    }
}

/// Routing fields, each followed by a zero separator.
pub open spec fn routing_part(e: MessageEnvelope) -> Seq<u8> {
    encode_utf8(module_name(e.source_module)) + seq![0u8] + encode_utf8(
        module_name(e.destination_module),
    ) + seq![0u8] + encode_utf8(family_name(e.source_chain_family)) + seq![0u8] + encode_utf8(
        family_name(e.target_chain_family),
    ) + seq![0u8]
}

/// Payload fields, each followed by a zero separator (absent options hash
/// as zeros).
pub open spec fn payload_part(e: MessageEnvelope) -> Seq<u8> {
    le_u64(e.nonce) + seq![0u8] + encode_utf8(e.payload_type@) + seq![0u8] + e.payload_hash@
        + seq![0u8] + (match e.proof_reference {
        Some(p) => p@,
        None => Seq::new(32, |i: int| 0u8),
    }) + seq![0u8]
}

/// Trailing fields: fee class, expiry (zero when absent) and replay tag.
pub open spec fn trailer_part(e: MessageEnvelope) -> Seq<u8> {
    encode_utf8(fee_name(e.fee_class)) + seq![0u8] + le_u64(
        match e.expiry {
            Some(x) => x,
            None => 0u64,
        },
    ) + seq![0u8] + e.replay_protection_tag@
}

/// Bytes hashed by `hash`: namespace, version, then every field followed by
/// a zero separator.
pub open spec fn envelope_hash_input(e: MessageEnvelope) -> Seq<u8> {
    encode_utf8(PROTOCOL_MESSAGE_NAMESPACE@) + seq![0u8, MESSAGE_ENVELOPE_HASH_VERSION]
        + routing_part(e) + payload_part(e) + trailer_part(e)
}

impl MessageEnvelope {
    /// Checks that the modules differ, the payload type is not blank and the
    /// replay tag is not all zero.
    pub fn validate(&self) -> (r: Result<(), &'static str>)
        ensures
            match r {
                Ok(()) => envelope_problem(*self) is None,
                Err(m) => envelope_problem(*self) == Some(m@),
            },
    {
        if self.source_module == self.destination_module {
            return Err("source_module and destination_module must differ");
        }
        let pt = chars_of(self.payload_type.as_str());
        if is_blank(&pt) {
            return Err("payload_type must not be empty");
        }
        if all_zero(self.replay_protection_tag.as_slice()) {
            return Err("replay_protection_tag must not be zero");
        }
        Ok(())
    }

    /// BLAKE3 of the envelope's canonical byte layout.
    pub fn hash(&self) -> (r: [u8; 32])
        ensures
            r@ == blake3(envelope_hash_input(*self)),
    {
        let mut m: Vec<u8> = Vec::new();
        push_str_bytes(&mut m, PROTOCOL_MESSAGE_NAMESPACE);
        m.push(0u8);
        m.push(MESSAGE_ENVELOPE_HASH_VERSION);
        let ghost header = m@;
        self.push_routing_part(&mut m);
        self.push_payload_part(&mut m);
        self.push_trailer_part(&mut m);
        proof {
            assert(header =~= encode_utf8(PROTOCOL_MESSAGE_NAMESPACE@) + seq![0u8, MESSAGE_ENVELOPE_HASH_VERSION]);
            assert(m@ =~= envelope_hash_input(*self));
        }
        blake3_digest(m.as_slice())
    }

    fn push_routing_part(&self, m: &mut Vec<u8>)
        ensures
            final(m)@ == old(m)@ + routing_part(*self),
    {
        let ghost start = m@;
        push_str_bytes(m, self.source_module.as_str());
        m.push(0u8);
        push_str_bytes(m, self.destination_module.as_str());
        m.push(0u8);
        push_str_bytes(m, self.source_chain_family.as_str());
        m.push(0u8);
        push_str_bytes(m, self.target_chain_family.as_str());
        m.push(0u8);
        assert(m@ =~= start + routing_part(*self));
    }

    fn push_payload_part(&self, m: &mut Vec<u8>)
        ensures
            final(m)@ == old(m)@ + payload_part(*self),
    {
        let ghost start = m@;
        push_le_u64(m, self.nonce);
        m.push(0u8);
        push_str_bytes(m, self.payload_type.as_str());
        m.push(0u8);
        push_bytes(m, self.payload_hash.as_slice());
        m.push(0u8);
        let zeros: [u8; 32] = [0u8; 32];
        match &self.proof_reference {
            Some(p) => push_bytes(m, p.as_slice()),
            None => {
                assert(zeros@ =~= Seq::new(32, |i: int| 0u8));
                push_bytes(m, zeros.as_slice());
            },
        }
        m.push(0u8);
        assert(m@ =~= start + payload_part(*self));
    }

    fn push_trailer_part(&self, m: &mut Vec<u8>)
        ensures
            final(m)@ == old(m)@ + trailer_part(*self),
    {
        let ghost start = m@;
        push_str_bytes(m, self.fee_class.as_str());
        m.push(0u8);
        let expiry: u64 = match self.expiry {
            Some(x) => x,
            None => 0,
        };
        push_le_u64(m, expiry);
        m.push(0u8);
        push_bytes(m, self.replay_protection_tag.as_slice());
        assert(m@ =~= start + trailer_part(*self));
    }
}

pub open spec fn canonical_module_list() -> Seq<ModuleId> {
    seq![
        ModuleId::RelayCore,
        ModuleId::Identity,
        ModuleId::Asset,
        ModuleId::Execution,
        ModuleId::Interop,
        ModuleId::Proof,
    ]
}

/// The six modules in canonical order.
pub fn canonical_modules() -> (r: [ModuleId; 6])
    ensures
        r@ == canonical_module_list(),
{
    let r = [
        ModuleId::RelayCore,
        ModuleId::Identity,
        ModuleId::Asset,
        ModuleId::Execution,
        ModuleId::Interop,
        ModuleId::Proof,
    ];
    assert(r@ =~= canonical_module_list());
    r
}

pub open spec fn canonical_family_list() -> Seq<ChainFamily> {
    seq![ChainFamily::Evm, ChainFamily::Solana, ChainFamily::Utxo, ChainFamily::Ibc, ChainFamily::Object]
}

/// The five external chain families in canonical order.
pub fn canonical_chain_families() -> (r: [ChainFamily; 5])
    ensures
        r@ == canonical_family_list(),
{
    let r = [
        ChainFamily::Evm,
        ChainFamily::Solana,
        ChainFamily::Utxo,
        ChainFamily::Ibc,
        ChainFamily::Object,
    ];
    assert(r@ =~= canonical_family_list());
    r
}

pub open spec fn canonical_field_names() -> Seq<Seq<char>> {
    seq![
        "sourceModule"@,
        "destinationModule"@,
        "sourceChainFamily"@,
        "targetChainFamily"@,
        "nonce"@,
        "payloadType"@,
        "payloadHash"@,
        "proofReference"@,
        "feeClass"@,
        "expiry"@,
        "replayProtectionTag"@,
    ]
}

/// The envelope's field names in canonical order.
pub fn canonical_message_envelope_fields() -> (r: [&'static str; 11])
    ensures
        r@.map_values(|s: &'static str| s@) == canonical_field_names(),
{
    let r = [
        "sourceModule",
        "destinationModule",
        "sourceChainFamily",
        "targetChainFamily",
        "nonce",
        "payloadType",
        "payloadHash",
        "proofReference",
        "feeClass",
        "expiry",
        "replayProtectionTag",
    ];
    assert(r@.map_values(|s: &'static str| s@) =~= canonical_field_names());
    r
}

pub open spec fn canonical_root_list() -> Seq<SovereignRoot> {
    seq![
        SovereignRoot::Identity,
        SovereignRoot::Supply,
        SovereignRoot::Governance,
        SovereignRoot::Relay,
        SovereignRoot::Security,
        SovereignRoot::Settlement,
        SovereignRoot::Treasury,
    ]
}

/// The seven sovereign roots in canonical order.
pub fn canonical_sovereign_roots() -> (r: [SovereignRoot; 7])
    ensures
        r@ == canonical_root_list(),
{
    let r = [
        SovereignRoot::Identity,
        SovereignRoot::Supply,
        SovereignRoot::Governance,
        SovereignRoot::Relay,
        SovereignRoot::Security,
        SovereignRoot::Settlement,
        SovereignRoot::Treasury,
    ];
    assert(r@ =~= canonical_root_list());
    r
}

} // verus!
