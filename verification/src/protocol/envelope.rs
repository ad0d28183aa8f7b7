//! Strict message envelope with typed errors, canonical payload-type labels
//! and length-framed hashing.

use vstd::prelude::*;
use vstd::utf8::encode_utf8;

use super::ChainFamily;
use super::FeeClass;
use super::ModuleId;
use super::PROTOCOL_MESSAGE_NAMESPACE;
use super::MESSAGE_ENVELOPE_HASH_VERSION;
use super::all_zero_bytes;
use super::family_name;
use super::fee_name;
use super::module_name;
use crate::crypto::blake3;
use crate::crypto::blake3_digest;
use crate::text::all_ascii;
use crate::text::all_chars;
use crate::text::all_zero;
use crate::text::byte_len;
use crate::text::byte_len_of;
use crate::text::chars_eq;
use crate::text::chars_of;
use crate::text::is_all_ascii;
use crate::text::is_ascii_digit;
use crate::text::is_ascii_lower;
use crate::text::is_ascii_ws;
use crate::text::is_ascii_ws_char;
use crate::text::is_digit_char;
use crate::text::le_u64;
use crate::text::lower_char;
use crate::text::push_bytes;
use crate::text::push_le_u64;
use crate::text::push_str_bytes;
use crate::text::str_to_string;
use crate::text::string_from_chars;
use crate::text::to_lower;
use crate::text::lemma_ascii_byte_len;
use crate::text::lemma_trim_fixed;
use crate::text::trim;
use crate::text::trim_chars;

verus! {

/// Upper bound on payload-type labels, in bytes.
pub const MAX_PAYLOAD_TYPE_LEN: usize = 64;

/// Validation failures for `MessageEnvelope`.
#[derive(Debug, Clone, Copy, PartialEq, Eq, Structural)]
pub enum MessageEnvelopeError {
    SameSourceAndDestinationModule,
    EmptyPayloadType,
    PayloadTypeTooLong,
    PayloadTypeNotCanonical,
    ZeroNonce,
    ZeroPayloadHash,
    ZeroProofReference,
    ZeroReplayProtectionTag,
    ExpiryMustBeNonZeroWhenPresent,
}

impl MessageEnvelopeError {
    pub open spec fn message_text(&self) -> Seq<char> {
        match self {
            MessageEnvelopeError::SameSourceAndDestinationModule => "source_module and destination_module must differ"@,
            MessageEnvelopeError::EmptyPayloadType => "payload_type must not be empty"@,
            MessageEnvelopeError::PayloadTypeTooLong => "payload_type exceeds the maximum canonical length"@,
            MessageEnvelopeError::PayloadTypeNotCanonical => "payload_type must already be in canonical normalized form"@,
            MessageEnvelopeError::ZeroNonce => "nonce must not be zero"@,
            MessageEnvelopeError::ZeroPayloadHash => "payload_hash must not be zero"@,
            MessageEnvelopeError::ZeroProofReference => "proof_reference must not be zero when present"@,
            MessageEnvelopeError::ZeroReplayProtectionTag => "replay_protection_tag must not be zero"@,
            MessageEnvelopeError::ExpiryMustBeNonZeroWhenPresent => "expiry must be non-zero when present"@,
        }
    }

    /// Human-readable description of the failure.
    pub fn message(&self) -> (r: String)
        ensures
            r@ == self.message_text(),
    {
        match self {
            MessageEnvelopeError::SameSourceAndDestinationModule => str_to_string("source_module and destination_module must differ"),
            MessageEnvelopeError::EmptyPayloadType => str_to_string("payload_type must not be empty"),
            MessageEnvelopeError::PayloadTypeTooLong => str_to_string("payload_type exceeds the maximum canonical length"),
            MessageEnvelopeError::PayloadTypeNotCanonical => str_to_string("payload_type must already be in canonical normalized form"),
            MessageEnvelopeError::ZeroNonce => str_to_string("nonce must not be zero"),
            MessageEnvelopeError::ZeroPayloadHash => str_to_string("payload_hash must not be zero"),
            MessageEnvelopeError::ZeroProofReference => str_to_string("proof_reference must not be zero when present"),
            MessageEnvelopeError::ZeroReplayProtectionTag => str_to_string("replay_protection_tag must not be zero"),
            MessageEnvelopeError::ExpiryMustBeNonZeroWhenPresent => str_to_string("expiry must be non-zero when present"),
        }
    }
}

// ---------------------------------------------------------------------------
// Payload-type labels
// ---------------------------------------------------------------------------

/// Characters allowed in a canonical label: lowercase ASCII letters, digits,
/// `_` and the segment separator `.`.
pub open spec fn is_label_symbol(c: char) -> bool {
    is_ascii_lower(c) || is_ascii_digit(c) || c == '_' || c == '.'
}

/// Segments are non-empty: no leading, trailing or doubled `.`.
pub open spec fn dots_well_placed(s: Seq<char>) -> bool {
    &&& s.len() > 0 ==> s[0] != '.'
    &&& s.len() > 0 ==> s.last() != '.'
    &&& forall|i: int| 0 < i < s.len() && #[trigger] s[i] == '.' ==> s[i - 1] != '.'
}

pub open spec fn lower_seq(s: Seq<char>) -> Seq<char> {
    s.map_values(|c: char| to_lower(c))
}

/// The canonical form of a payload-type label, or why there is none: the
/// trimmed text must be non-empty, at most `MAX_PAYLOAD_TYPE_LEN` bytes,
/// ASCII without whitespace, and once lowercased consist of non-empty
/// dot-separated segments of `[a-z0-9_]`.
pub open spec fn canonical_payload_type(s: Seq<char>) -> Result<Seq<char>, MessageEnvelopeError> {
    let t = trim(s);
    let n = lower_seq(t);
    if t.len() == 0 {
        Err(MessageEnvelopeError::EmptyPayloadType)
    } else if byte_len(t) > MAX_PAYLOAD_TYPE_LEN {
        Err(MessageEnvelopeError::PayloadTypeTooLong)
    } else if !all_chars(t, |c: char| !is_ascii_ws(c)) || !all_ascii(t) || !all_chars(
        n,
        |c: char| is_label_symbol(c),
    ) || !dots_well_placed(n) {
        Err(MessageEnvelopeError::PayloadTypeNotCanonical)
    } else {
        Ok(n)
    }
}

/// Canonicalization is idempotent: a canonical label is its own canonical
/// form.
pub proof fn law_canonical_payload_type_idempotent(s: Seq<char>)
    requires
        canonical_payload_type(s) is Ok,
    ensures
        canonical_payload_type(canonical_payload_type(s)->Ok_0) == canonical_payload_type(s),
{
    let t = trim(s);
    let n = lower_seq(t);
    assert(all_chars(n, |c: char| is_label_symbol(c)));
    assert(n[0] == to_lower(t[0]));
    assert(is_label_symbol(n[0]));
    assert(is_label_symbol(n[n.len() - 1]));
    lemma_trim_fixed(n);
    assert(trim(n) == n);
    assert(lower_seq(n) =~= n) by {
        assert forall|i: int| 0 <= i < n.len() implies #[trigger] lower_seq(n)[i] == n[i] by {
            assert(is_label_symbol(n[i]));
        }
    }
    assert(all_ascii(n)) by {
        assert forall|i: int| 0 <= i < n.len() implies (#[trigger] n[i] as u32) < 128 by {
            assert(is_label_symbol(n[i]));
        }
    }
    lemma_ascii_byte_len(n);
    lemma_ascii_byte_len(t);
    assert(all_chars(n, |c: char| !is_ascii_ws(c))) by {
        assert forall|i: int| 0 <= i < n.len() implies !is_ascii_ws(#[trigger] n[i]) by {
            assert(is_label_symbol(n[i]));
        }
    }
}

fn is_label_symbol_char(c: char) -> (r: bool)
    ensures
        r == is_label_symbol(c),
{
    ('a' <= c && c <= 'z') || is_digit_char(c) || c == '_' || c == '.'
}

fn has_ascii_ws(s: &[char]) -> (r: bool)
    ensures
        r == !all_chars(s@, |c: char| !is_ascii_ws(c)),
{
    let n = s.len();
    let mut i: usize = 0;
    while i < n
        invariant
            n == s@.len(),
            i <= n,
            forall|j: int| 0 <= j < i ==> !is_ascii_ws(#[trigger] s@[j]),
        decreases n - i,
    {
        if is_ascii_ws_char(s[i]) {
            return true;
        }
        i += 1;
    }
    false
}

/// Canonicalizes a payload-type label (trim, lowercase, check segments).
pub fn canonicalize_payload_type(input: &str) -> (r: Result<String, MessageEnvelopeError>)
    ensures
        match r {
            Ok(s) => canonical_payload_type(input@) == Ok::<Seq<char>, MessageEnvelopeError>(s@),
            Err(e) => canonical_payload_type(input@) == Err::<Seq<char>, MessageEnvelopeError>(e),
        },
{
    let all = chars_of(input);
    let trimmed = trim_chars(&all);
    if trimmed.len() == 0 {
        return Err(MessageEnvelopeError::EmptyPayloadType);
    }
    if byte_len_of(&trimmed) > MAX_PAYLOAD_TYPE_LEN as u128 {
        return Err(MessageEnvelopeError::PayloadTypeTooLong);
    }
    if has_ascii_ws(&trimmed) {
        return Err(MessageEnvelopeError::PayloadTypeNotCanonical);
    }
    if !is_all_ascii(&trimmed) {
        return Err(MessageEnvelopeError::PayloadTypeNotCanonical);
    }
    let ghost n = lower_seq(trimmed@);
    let mut normalized: Vec<char> = Vec::new();
    let mut previous_was_dot = false;
    let len = trimmed.len();
    let mut index: usize = 0;
    while index < len
        invariant
            len == trimmed@.len(),
            len > 0,
            trimmed@ == trim(input@),
            byte_len(trimmed@) <= MAX_PAYLOAD_TYPE_LEN,
            n == lower_seq(trimmed@),
            index <= len,
            normalized@ == n.take(index as int),
            forall|j: int| 0 <= j < index ==> is_label_symbol(#[trigger] n[j]),
            index > 0 ==> n[0] != '.',
            forall|j: int| 0 < j < index && #[trigger] n[j] == '.' ==> n[j - 1] != '.',
            index > 0 ==> (previous_was_dot <==> n[index - 1] == '.'),
        decreases len - index,
    {
        let canonical_ch = lower_char(trimmed[index]);
        assert(canonical_ch == n[index as int]);
        if !is_label_symbol_char(canonical_ch) {
            assert(!all_chars(n, |c: char| is_label_symbol(c))) by {
                assert(!is_label_symbol(n[index as int]));
            }
            return Err(MessageEnvelopeError::PayloadTypeNotCanonical);
        }
        if canonical_ch == '.' {
            if index == 0 || previous_was_dot {
                assert(!dots_well_placed(n)) by {
                    if index > 0 {
                        assert(n[index as int] == '.' && n[index - 1] == '.');
                    }
                }
                return Err(MessageEnvelopeError::PayloadTypeNotCanonical);
            }
            previous_was_dot = true;
        } else {
            previous_was_dot = false;
        }
        normalized.push(canonical_ch);
        index += 1;
        assert(normalized@ =~= n.take(index as int));
    }
    assert(normalized@ =~= n);
    if normalized[normalized.len() - 1] == '.' {
        return Err(MessageEnvelopeError::PayloadTypeNotCanonical);
    }
    Ok(string_from_chars(&normalized))
}

// ---------------------------------------------------------------------------
// Envelope
// ---------------------------------------------------------------------------

/// Canonical protocol message envelope.
#[derive(Debug, Clone, PartialEq, Eq)]
pub struct MessageEnvelope {
    pub source_module: ModuleId,
    pub destination_module: ModuleId,
    pub source_chain_family: ChainFamily,
    pub target_chain_family: ChainFamily,
    pub nonce: u64,
    pub payload_type: String,
    pub payload_hash: [u8; 32],
    pub proof_reference: Option<[u8; 32]>,
    pub fee_class: FeeClass,
    pub expiry: Option<u64>,
    pub replay_protection_tag: [u8; 16],
}

/// The first rule an envelope breaks, in the order `validate` checks them.
pub open spec fn envelope_error(e: MessageEnvelope) -> Option<MessageEnvelopeError> {
    if e.source_module == e.destination_module {
        Some(MessageEnvelopeError::SameSourceAndDestinationModule)
    } else if e.nonce == 0 {
        Some(MessageEnvelopeError::ZeroNonce)
    } else if all_zero_bytes(e.payload_hash@) {
        Some(MessageEnvelopeError::ZeroPayloadHash)
    } else if all_zero_bytes(e.replay_protection_tag@) {
        Some(MessageEnvelopeError::ZeroReplayProtectionTag)
    } else if e.proof_reference is Some && all_zero_bytes(e.proof_reference->0@) {
        Some(MessageEnvelopeError::ZeroProofReference)
    } else if e.expiry == Some(0u64) {
        Some(MessageEnvelopeError::ExpiryMustBeNonZeroWhenPresent)
    } else if e.payload_type@.len() == 0 {
        Some(MessageEnvelopeError::EmptyPayloadType)
    } else if byte_len(e.payload_type@) > MAX_PAYLOAD_TYPE_LEN {
        Some(MessageEnvelopeError::PayloadTypeTooLong)
    } else if canonical_payload_type(e.payload_type@) is Err {
        Some(canonical_payload_type(e.payload_type@)->Err_0)
    } else if canonical_payload_type(e.payload_type@)->Ok_0 != e.payload_type@ {
        Some(MessageEnvelopeError::PayloadTypeNotCanonical)
    } else {
        None
    }
}

/// `len as u64 (LE) || bytes || 0xFF`.
pub open spec fn framed(b: Seq<u8>) -> Seq<u8> {
    le_u64(b.len() as u64) + b + seq![0xFFu8]
}

/// Routing fields, framed: modules, chain families, nonce, payload type and
/// payload hash.
pub open spec fn routing_part(e: MessageEnvelope) -> Seq<u8> {
    framed(encode_utf8(module_name(e.source_module))) + framed(
        encode_utf8(module_name(e.destination_module)),
    ) + framed(encode_utf8(family_name(e.source_chain_family))) + framed(
        encode_utf8(family_name(e.target_chain_family)),
    ) + framed(le_u64(e.nonce)) + framed(encode_utf8(e.payload_type@)) + framed(e.payload_hash@)
}

/// An optional reference with its presence marker.
pub open spec fn optional_reference_part(p: Option<[u8; 32]>) -> Seq<u8> {
    match p {
        Some(p) => framed(seq![1u8]) + framed(p@),
        None => framed(seq![0u8]),
    }
}

/// An optional expiry with its presence marker.
pub open spec fn optional_expiry_part(x: Option<u64>) -> Seq<u8> {
    match x {
        Some(x) => framed(seq![1u8]) + framed(le_u64(x)),
        None => framed(seq![0u8]),
    }
}

/// Remaining fields, framed: proof reference, fee class, expiry and replay tag.
pub open spec fn body_part(e: MessageEnvelope) -> Seq<u8> {
    optional_reference_part(e.proof_reference) + framed(encode_utf8(fee_name(e.fee_class)))
        + optional_expiry_part(e.expiry) + framed(e.replay_protection_tag@)
}

/// Bytes hashed by `hash`: namespace, separator and version, then every
/// field length-framed, options with a presence marker.
pub open spec fn envelope_hash_input(e: MessageEnvelope) -> Seq<u8> {
    encode_utf8(PROTOCOL_MESSAGE_NAMESPACE@) + seq![0u8, MESSAGE_ENVELOPE_HASH_VERSION]
        + routing_part(e) + body_part(e)
}

fn push_framed(m: &mut Vec<u8>, b: &[u8])
    ensures
        final(m)@ == old(m)@ + framed(b@),
{
    let len = b.len() as u64;
    push_le_u64(m, len);
    push_bytes(m, b);
    m.push(0xFFu8);
    assert(final(m)@ =~= old(m)@ + framed(b@));
}

fn push_framed_str(m: &mut Vec<u8>, s: &str)
    ensures
        final(m)@ == old(m)@ + framed(encode_utf8(s@)),
{
    push_framed(m, s.as_bytes());
}

fn push_framed_u64(m: &mut Vec<u8>, x: u64)
    ensures
        final(m)@ == old(m)@ + framed(le_u64(x)),
{
    let mut b: Vec<u8> = Vec::new();
    push_le_u64(&mut b, x);
    assert(b@ =~= le_u64(x));
    push_framed(m, b.as_slice());
}

impl MessageEnvelope {
    /// Builds an envelope with a canonicalized payload type, then validates it.
    pub fn new(
        source_module: ModuleId,
        destination_module: ModuleId,
        source_chain_family: ChainFamily,
        target_chain_family: ChainFamily,
        nonce: u64,
        payload_type: &str,
        payload_hash: [u8; 32],
        proof_reference: Option<[u8; 32]>,
        fee_class: FeeClass,
        expiry: Option<u64>,
        replay_protection_tag: [u8; 16],
    ) -> (r: Result<Self, MessageEnvelopeError>)
        ensures
            canonical_payload_type(payload_type@) is Err ==> r == Err::<Self, MessageEnvelopeError>(
                canonical_payload_type(payload_type@)->Err_0,
            ),
            canonical_payload_type(payload_type@) is Ok ==> match r {
                Ok(e) => envelope_error(e) is None && e.payload_type@ == canonical_payload_type(
                    payload_type@,
                )->Ok_0 && e.source_module == source_module && e.destination_module
                    == destination_module && e.source_chain_family == source_chain_family
                    && e.target_chain_family == target_chain_family && e.nonce == nonce
                    && e.payload_hash == payload_hash && e.proof_reference == proof_reference
                    && e.fee_class == fee_class && e.expiry == expiry && e.replay_protection_tag
                    == replay_protection_tag,
                Err(err) => exists|e: MessageEnvelope|
                    e.payload_type@ == canonical_payload_type(payload_type@)->Ok_0
                        && e.source_module == source_module && e.destination_module
                        == destination_module && e.nonce == nonce && e.payload_hash == payload_hash
                        && e.proof_reference == proof_reference && e.expiry == expiry
                        && e.replay_protection_tag == replay_protection_tag
                        && #[trigger] envelope_error(e) == Some(err),
            },
    {
        let canonical = canonicalize_payload_type(payload_type)?;
        let envelope = MessageEnvelope {
            source_module,
            destination_module,
            source_chain_family,
            target_chain_family,
            nonce,
            payload_type: canonical,
            payload_hash,
            proof_reference,
            fee_class,
            expiry,
            replay_protection_tag,
        };
        envelope.validate()?;
        Ok(envelope)
    }

    /// Validates the envelope under the strict canonical rules.
    pub fn validate(&self) -> (r: Result<(), MessageEnvelopeError>)
        ensures
            match r {
                Ok(()) => envelope_error(*self) is None,
                Err(e) => envelope_error(*self) == Some(e),
            },
    {
        if self.source_module == self.destination_module {
            return Err(MessageEnvelopeError::SameSourceAndDestinationModule);
        }
        if self.nonce == 0 {
            return Err(MessageEnvelopeError::ZeroNonce);
        }
        if all_zero(self.payload_hash.as_slice()) {
            return Err(MessageEnvelopeError::ZeroPayloadHash);
        }
        if all_zero(self.replay_protection_tag.as_slice()) {
            return Err(MessageEnvelopeError::ZeroReplayProtectionTag);
        }
        if let Some(proof_reference) = &self.proof_reference {
            if all_zero(proof_reference.as_slice()) {
                return Err(MessageEnvelopeError::ZeroProofReference);
            }
        }
        if let Some(expiry) = self.expiry {
            if expiry == 0 {
                return Err(MessageEnvelopeError::ExpiryMustBeNonZeroWhenPresent);
            }
        }
        let pt = chars_of(self.payload_type.as_str());
        if pt.len() == 0 {
            return Err(MessageEnvelopeError::EmptyPayloadType);
        }
        if byte_len_of(&pt) > MAX_PAYLOAD_TYPE_LEN as u128 {
            return Err(MessageEnvelopeError::PayloadTypeTooLong);
        }
        let canonical = canonicalize_payload_type(self.payload_type.as_str())?;
        let canonical_chars = chars_of(canonical.as_str());
        if !chars_eq(&canonical_chars, &pt) {
            return Err(MessageEnvelopeError::PayloadTypeNotCanonical);
        }
        Ok(())
    }

    /// BLAKE3 of the envelope's length-framed byte layout. Hashing an
    /// invalid envelope is a caller error.
    pub fn hash(&self) -> (r: [u8; 32])
        requires
            envelope_error(*self) is None,
        ensures
            r@ == blake3(envelope_hash_input(*self)),
    {
        let mut m: Vec<u8> = Vec::new();
        push_str_bytes(&mut m, PROTOCOL_MESSAGE_NAMESPACE);
        m.push(0u8);
        m.push(MESSAGE_ENVELOPE_HASH_VERSION);
        let ghost header = m@;
        self.push_routing_part(&mut m);
        let ghost routed = m@;
        self.push_body_part(&mut m);
        proof {
            assert(header =~= encode_utf8(PROTOCOL_MESSAGE_NAMESPACE@) + seq![0u8, MESSAGE_ENVELOPE_HASH_VERSION]);
            assert(m@ =~= header + routing_part(*self) + body_part(*self));
            assert(envelope_hash_input(*self) =~= header + routing_part(*self) + body_part(*self));
        }
        blake3_digest(m.as_slice())
    }

    fn push_routing_part(&self, m: &mut Vec<u8>)
        ensures
            final(m)@ == old(m)@ + routing_part(*self),
    {
        let ghost start = m@;
        push_framed_str(m, self.source_module.as_str());
        push_framed_str(m, self.destination_module.as_str());
        push_framed_str(m, self.source_chain_family.as_str());
        push_framed_str(m, self.target_chain_family.as_str());
        push_framed_u64(m, self.nonce);
        push_framed_str(m, self.payload_type.as_str());
        push_framed(m, self.payload_hash.as_slice());
        assert(m@ =~= start + routing_part(*self));
    }

    fn push_body_part(&self, m: &mut Vec<u8>)
        ensures
            final(m)@ == old(m)@ + body_part(*self),
    {
        let ghost start = m@;
        let one: [u8; 1] = [1u8];
        let zero: [u8; 1] = [0u8];
        assert(one@ =~= seq![1u8]);
        assert(zero@ =~= seq![0u8]);
        match &self.proof_reference {
            Some(value) => {
                push_framed(m, one.as_slice());
                push_framed(m, value.as_slice());
            },
            None => {
                push_framed(m, zero.as_slice());
            },
        }
        let ghost after_proof = m@;
        assert(after_proof =~= start + optional_reference_part(self.proof_reference));
        push_framed_str(m, self.fee_class.as_str());
        let ghost after_fee = m@;
        match self.expiry {
            Some(value) => {
                push_framed(m, one.as_slice());
                push_framed_u64(m, value);
            },
            None => {
                push_framed(m, zero.as_slice());
            },
        }
        assert(m@ =~= after_fee + optional_expiry_part(self.expiry));
        push_framed(m, self.replay_protection_tag.as_slice());
        assert(m@ =~= start + body_part(*self));
    }

    /// Whether an expiry is present and `now` is strictly past it.
    pub fn is_expired_at(&self, now: u64) -> (r: bool)
        ensures
            r == match self.expiry {
                Some(x) => now > x,
                None => false,
            },
    {
        match self.expiry {
            Some(expiry) => now > expiry,
            None => false,
        }
    }

    /// The canonical payload type.
    pub fn payload_type(&self) -> (r: &str)
        ensures
            r@ == self.payload_type@,
    {
        self.payload_type.as_str()
    }
}

} // verus!
