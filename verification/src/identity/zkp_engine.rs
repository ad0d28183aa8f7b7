//! Deterministic proof envelopes: a fixed 32-byte layout binding a circuit
//! identifier, the public inputs and the witness, with strict verification
//! of the envelope and an optional pluggable verification backend.

use vstd::prelude::*;
use vstd::utf8::encode_utf8;

use crate::crypto::sha3_256;
use crate::crypto::sha3_256_digest;
use crate::identity::passport::short_digest_hex;
use crate::text::all_ascii;
use crate::text::all_chars;
use crate::text::all_ident;
use crate::text::all_zero;
use crate::text::byte_len;
use crate::text::byte_len_of;
use crate::text::bytes_eq;
use crate::text::bytes_range;
use crate::text::chars_of;
use crate::text::decode_hex;
use crate::text::encode_hex_upper;
use crate::text::has_outer_ws;
use crate::text::hex_decode;
use crate::text::hex_upper;
use crate::text::hex_upper_prefix;
use crate::text::is_blank;
use crate::text::is_ident;
use crate::text::is_ident_char;
use crate::text::is_ws;
use crate::text::lemma_ascii_byte_len;
use crate::text::lemma_hex_upper_roundtrip;
use crate::text::lemma_trim_empty;
use crate::text::lemma_trim_fixed;
use crate::text::push_bytes;
use crate::text::push_str_bytes;
use crate::text::str_to_string;
use crate::text::string_from_chars;
use crate::text::trim;
use crate::text::trim_chars;

verus! {

/// Envelope schema version.
pub const ZKP_PROOF_VERSION: u8 = 1;

/// Proof byte length: circuit tag (8), public-input tag (8), witness tag (16).
pub const ZKP_PROOF_BYTES_LEN: usize = 32;

/// Public-input hash length in hexadecimal characters.
pub const ZKP_PUBLIC_INPUTS_HASH_HEX_LEN: usize = 64;

/// Maximum circuit identifier length, in bytes.
pub const MAX_CIRCUIT_ID_LEN: usize = 128;

pub const ZKP_PROOF_DOMAIN: &'static str = "AOXC/ZKP/PSEUDO_PROOF/V1";

pub const ZKP_PUBLIC_INPUTS_HASH_DOMAIN: &'static str = "AOXC/ZKP/PUBLIC_INPUTS_HASH/V1";

pub const ZKP_CIRCUIT_TAG_DOMAIN: &'static str = "AOXC/ZKP/CIRCUIT_TAG/V1";

pub const ZKP_PUBLIC_INPUT_TAG_DOMAIN: &'static str = "AOXC/ZKP/PUBLIC_INPUT_TAG/V1";

pub const ZKP_WITNESS_TAG_DOMAIN: &'static str = "AOXC/ZKP/WITNESS_TAG/V1";

pub const ZKP_PROOF_FINGERPRINT_DOMAIN: &'static str = "AOXC/ZKP/PROOF_FINGERPRINT/V1";

/// Circuit identifier used when a lossy canonicalization leaves nothing.
pub const UNSPECIFIED_CIRCUIT: &'static str = "UNSPECIFIED_CIRCUIT";

/// A deterministic proof envelope.
#[derive(Debug, Clone, PartialEq, Eq)]
pub struct ZkpProof {
    pub circuit_id: String,
    pub proof_bytes: Vec<u8>,
    pub public_inputs_hash: String,
}

/// Envelope errors.
#[derive(Debug, Clone, PartialEq, Eq)]
#[non_exhaustive]
pub enum ZkpError {
    EmptyCircuitId,
    InvalidCircuitId,
    InvalidProofLength,
    InvalidPublicInputsHash,
    PublicInputMismatch,
    CircuitMismatch,
    InvalidProofEncoding,
    BackendRejected,
    SerializationFailed(String),
    ParseFailed(String),
}

impl ZkpError {
    pub open spec fn code_text(&self) -> Seq<char> {
        match self {
            ZkpError::EmptyCircuitId => "ZKP_EMPTY_CIRCUIT_ID"@,
            ZkpError::InvalidCircuitId => "ZKP_INVALID_CIRCUIT_ID"@,
            ZkpError::InvalidProofLength => "ZKP_INVALID_PROOF_LENGTH"@,
            ZkpError::InvalidPublicInputsHash => "ZKP_INVALID_PUBLIC_INPUTS_HASH"@,
            ZkpError::PublicInputMismatch => "ZKP_PUBLIC_INPUT_MISMATCH"@,
            ZkpError::CircuitMismatch => "ZKP_CIRCUIT_MISMATCH"@,
            ZkpError::InvalidProofEncoding => "ZKP_INVALID_PROOF_ENCODING"@,
            ZkpError::BackendRejected => "ZKP_BACKEND_REJECTED"@,
            ZkpError::SerializationFailed(_) => "ZKP_SERIALIZATION_FAILED"@,
            ZkpError::ParseFailed(_) => "ZKP_PARSE_FAILED"@,
        }
    }

    /// Stable symbolic error code for logs and telemetry.
    pub fn code(&self) -> (r: &'static str)
        ensures
            r@ == self.code_text(),
    {
        match self {
            ZkpError::EmptyCircuitId => "ZKP_EMPTY_CIRCUIT_ID",
            ZkpError::InvalidCircuitId => "ZKP_INVALID_CIRCUIT_ID",
            ZkpError::InvalidProofLength => "ZKP_INVALID_PROOF_LENGTH",
            ZkpError::InvalidPublicInputsHash => "ZKP_INVALID_PUBLIC_INPUTS_HASH",
            ZkpError::PublicInputMismatch => "ZKP_PUBLIC_INPUT_MISMATCH",
            ZkpError::CircuitMismatch => "ZKP_CIRCUIT_MISMATCH",
            ZkpError::InvalidProofEncoding => "ZKP_INVALID_PROOF_ENCODING",
            ZkpError::BackendRejected => "ZKP_BACKEND_REJECTED",
            ZkpError::SerializationFailed(_) => "ZKP_SERIALIZATION_FAILED",
            ZkpError::ParseFailed(_) => "ZKP_PARSE_FAILED",
        }
    }

    /// Human-readable form of the error: its code.
    pub fn message(&self) -> (r: String)
        ensures
            r@ == self.code_text(),
    {
        str_to_string(self.code())
    }
}

/// A verification backend that a user of the envelope plugs in.
pub trait ZkpBackend {
    /// Verifies `proof` against the expected public inputs.
    fn verify(&self, proof: &ZkpProof, expected_public_inputs: &[u8]) -> Result<(), ZkpError>;
}

// ---------------------------------------------------------------------------
// Rules and derived values
// ---------------------------------------------------------------------------

/// Blank text is empty; outer whitespace, more than `MAX_CIRCUIT_ID_LEN`
/// bytes or a character outside `[A-Za-z0-9_.-]` is invalid.
pub open spec fn circuit_id_error(s: Seq<char>) -> Option<ZkpError> {
    if trim(s).len() == 0 {
        Some(ZkpError::EmptyCircuitId)
    } else if trim(s) != s || byte_len(s) > MAX_CIRCUIT_ID_LEN || !all_chars(
        s,
        |c: char| is_ident_char(c),
    ) {
        Some(ZkpError::InvalidCircuitId)
    } else {
        None
    }
}

/// A public-input hash must be 64 hexadecimal characters without outer
/// whitespace.
pub open spec fn hash_hex_invalid(h: Seq<char>) -> bool {
    trim(h).len() == 0 || trim(h) != h || byte_len(h) != ZKP_PUBLIC_INPUTS_HASH_HEX_LEN
        || hex_decode(h) is None
}

/// The uppercase form of a valid hash.
pub open spec fn canonical_hash(h: Seq<char>) -> Seq<char> {
    hex_upper(hex_decode(h).unwrap())
}

/// The first structural rule a proof envelope breaks.
pub open spec fn proof_error(p: ZkpProof) -> Option<ZkpError> {
    if circuit_id_error(p.circuit_id@) is Some {
        circuit_id_error(p.circuit_id@)
    } else if p.proof_bytes@.len() != ZKP_PROOF_BYTES_LEN {
        Some(ZkpError::InvalidProofLength)
    } else if hash_hex_invalid(p.public_inputs_hash@) || canonical_hash(p.public_inputs_hash@).len()
        != ZKP_PUBLIC_INPUTS_HASH_HEX_LEN {
        Some(ZkpError::InvalidPublicInputsHash)
    } else {
        None
    }
}

/// The first `len` bytes of SHA3-256 over the domain, a zero byte and `data`.
pub open spec fn tag(domain: Seq<char>, data: Seq<u8>, len: int) -> Seq<u8> {
    sha3_256(encode_utf8(domain) + seq![0u8] + data).take(len)
}

/// Uppercase hexadecimal SHA3-256 of the public inputs under their domain.
pub open spec fn public_inputs_hash_of(public_inputs: Seq<u8>) -> Seq<char> {
    hex_upper(sha3_256(encode_utf8(ZKP_PUBLIC_INPUTS_HASH_DOMAIN@) + seq![0u8] + public_inputs))
}

/// The material the witness tag is derived from.
pub open spec fn witness_material(circuit_id: Seq<char>, witness: Seq<u8>, public_inputs: Seq<u8>) -> Seq<
    u8,
> {
    encode_utf8(ZKP_PROOF_DOMAIN@) + seq![0u8] + encode_utf8(circuit_id) + seq![0u8] + encode_utf8(
        public_inputs_hash_of(public_inputs),
    ) + seq![0u8] + witness
}

/// The proof bytes of an envelope: circuit tag, public-input tag, witness tag.
pub open spec fn proof_bytes_of(circuit_id: Seq<char>, witness: Seq<u8>, public_inputs: Seq<u8>) -> Seq<
    u8,
> {
    tag(ZKP_CIRCUIT_TAG_DOMAIN@, encode_utf8(circuit_id), 8) + tag(
        ZKP_PUBLIC_INPUT_TAG_DOMAIN@,
        public_inputs,
        8,
    ) + tag(ZKP_WITNESS_TAG_DOMAIN@, witness_material(circuit_id, witness, public_inputs), 16)
}

/// The envelope built for a circuit, witness and public inputs.
pub open spec fn builds(p: ZkpProof, circuit_id: Seq<char>, witness: Seq<u8>, public_inputs: Seq<u8>) -> bool {
    &&& p.circuit_id@ == circuit_id
    &&& p.proof_bytes@ == proof_bytes_of(circuit_id, witness, public_inputs)
    &&& p.public_inputs_hash@ == public_inputs_hash_of(public_inputs)
}

pub open spec fn all_zero_bytes(b: Seq<u8>) -> bool {
    forall|i: int| 0 <= i < b.len() ==> b[i] == 0
}

/// The first verification rule a proof breaks against the expected public
/// inputs.
pub open spec fn verify_error(p: ZkpProof, public_inputs: Seq<u8>) -> Option<ZkpError> {
    if proof_error(p) is Some {
        proof_error(p)
    } else if canonical_hash(p.public_inputs_hash@) != public_inputs_hash_of(public_inputs) {
        Some(ZkpError::PublicInputMismatch)
    } else if p.proof_bytes@.take(8) != tag(ZKP_CIRCUIT_TAG_DOMAIN@, encode_utf8(p.circuit_id@), 8) {
        Some(ZkpError::CircuitMismatch)
    } else if p.proof_bytes@.subrange(8, 16) != tag(ZKP_PUBLIC_INPUT_TAG_DOMAIN@, public_inputs, 8) {
        Some(ZkpError::PublicInputMismatch)
    } else if all_zero_bytes(p.proof_bytes@.subrange(16, 32)) {
        Some(ZkpError::InvalidProofEncoding)
    } else {
        None
    }
}

/// The identifier characters of `s`, in order.
pub open spec fn keep_ident(s: Seq<char>) -> Seq<char>
    decreases s.len(),
{
    if s.len() == 0 {
        s
    } else {
        keep_ident(s.drop_last()) + if is_ident_char(s.last()) {
            seq![s.last()]
        } else {
            Seq::<char>::empty()
        }
    }
}

pub open spec fn cap_len(s: Seq<char>, n: int) -> Seq<char> {
    if s.len() <= n {
        s
    } else {
        s.take(n)
    }
}

/// Lossy canonical circuit id: the identifier characters of the trimmed
/// text, at most `MAX_CIRCUIT_ID_LEN` of them, or `UNSPECIFIED_CIRCUIT` when
/// none is left.
pub open spec fn lossy_circuit_id(s: Seq<char>) -> Seq<char> {
    let kept = cap_len(keep_ident(trim(s)), MAX_CIRCUIT_ID_LEN as int);
    if kept.len() == 0 {
        UNSPECIFIED_CIRCUIT@
    } else {
        kept
    }
}

proof fn lemma_keep_ident_chars(s: Seq<char>)
    ensures
        all_chars(keep_ident(s), |c: char| is_ident_char(c)),
        keep_ident(s).len() <= s.len(),
    decreases s.len(),
{
    if s.len() > 0 {
        lemma_keep_ident_chars(s.drop_last());
        let k = keep_ident(s);
        let a = keep_ident(s.drop_last());
        assert forall|i: int| 0 <= i < k.len() implies is_ident_char(#[trigger] k[i]) by {
            if i < a.len() {
                assert(k[i] == a[i]);
            }
        }
    }
}

/// Non-empty identifier text of at most `MAX_CIRCUIT_ID_LEN` characters is a
/// valid circuit id.
proof fn lemma_ident_text_valid(s: Seq<char>)
    requires
        0 < s.len() <= MAX_CIRCUIT_ID_LEN,
        all_chars(s, |c: char| is_ident_char(c)),
    ensures
        circuit_id_error(s) is None,
{
    assert(all_ascii(s)) by {
        assert forall|i: int| 0 <= i < s.len() implies (#[trigger] s[i] as u32) < 128 by {
            assert(is_ident_char(s[i]));
        }
    }
    lemma_ascii_byte_len(s);
    lemma_trim_fixed(s);
    lemma_trim_empty(s);
    assert(is_ident_char(s[0]));
    assert(is_ident_char(s.last()));
    assert(!is_ws(s[0]));
}

// ---------------------------------------------------------------------------
// Executable parts
// ---------------------------------------------------------------------------

fn validate_circuit_id(circuit_id: &str) -> (r: Result<(), ZkpError>)
    ensures
        r == match circuit_id_error(circuit_id@) {
            Some(e) => Err(e),
            None => Ok(()),
        },
{
    let cs = chars_of(circuit_id);
    if is_blank(&cs) {
        return Err(ZkpError::EmptyCircuitId);
    }
    if has_outer_ws(&cs) || byte_len_of(&cs) > MAX_CIRCUIT_ID_LEN as u128 || !all_ident(&cs) {
        return Err(ZkpError::InvalidCircuitId);
    }
    Ok(())
}

/// Keeps the identifier characters of the trimmed text, up to the length
/// bound, falling back to `UNSPECIFIED_CIRCUIT`.
fn canonicalize_circuit_id_lossy(circuit_id: &str) -> (r: String)
    ensures
        r@ == lossy_circuit_id(circuit_id@),
        circuit_id_error(r@) is None,
{
    let cs = chars_of(circuit_id);
    let t = trim_chars(&cs);
    let n = t.len();
    let mut out: Vec<char> = Vec::new();
    let mut i: usize = 0;
    while i < n
        invariant
            n == t@.len(),
            i <= n,
            out@ == cap_len(keep_ident(t@.take(i as int)), MAX_CIRCUIT_ID_LEN as int),
        decreases n - i,
    {
        let c = t[i];
        let ghost before = keep_ident(t@.take(i as int));
        proof {
            assert(t@.take(i + 1 as int).drop_last() =~= t@.take(i as int));
            assert(t@.take(i + 1 as int).last() == c);
        }
        if out.len() < MAX_CIRCUIT_ID_LEN && is_ident(c) {
            out.push(c);
        }
        proof {
            let after = keep_ident(t@.take(i + 1 as int));
            if before.len() >= MAX_CIRCUIT_ID_LEN {
                assert(after.take(MAX_CIRCUIT_ID_LEN as int) =~= before.take(MAX_CIRCUIT_ID_LEN as int));
            }
        }
        i += 1;
    }
    assert(t@.take(n as int) =~= t@);
    proof {
        lemma_keep_ident_chars(t@);
    }
    if out.len() == 0 {
        let r = str_to_string(UNSPECIFIED_CIRCUIT);
        proof {
            reveal_strlit("UNSPECIFIED_CIRCUIT");
            lemma_ident_text_valid(r@);
        }
        r
    } else {
        proof {
            let k = keep_ident(t@);
            assert(all_chars(out@, |c: char| is_ident_char(c))) by {
                assert forall|j: int| 0 <= j < out@.len() implies is_ident_char(#[trigger] out@[j]) by {
                    assert(out@[j] == k[j]);
                }
            }
            lemma_ident_text_valid(out@);
        }
        string_from_chars(&out)
    }
}

/// The first `len` bytes of SHA3-256 over `domain`, a zero byte and `data`.
fn compute_tag(domain: &str, data: &[u8], len: usize) -> (r: Vec<u8>)
    requires
        len <= 32,
    ensures
        r@ == tag(domain@, data@, len as int),
        r@.len() == len,
{
    let mut m: Vec<u8> = Vec::new();
    push_str_bytes(&mut m, domain);
    m.push(0u8);
    push_bytes(&mut m, data);
    assert(m@ =~= encode_utf8(domain@) + seq![0u8] + data@);
    let digest = sha3_256_digest(m.as_slice());
    bytes_range(&digest, 0, len)
}

/// Uppercase hexadecimal SHA3-256 of the public inputs under their domain
/// (64 characters).
pub fn compute_public_inputs_hash(public_inputs: &[u8]) -> (r: String)
    ensures
        r@ == public_inputs_hash_of(public_inputs@),
        !hash_hex_invalid(r@),
        canonical_hash(r@) == r@,
        r@.len() == ZKP_PUBLIC_INPUTS_HASH_HEX_LEN,
{
    let mut m: Vec<u8> = Vec::new();
    push_str_bytes(&mut m, ZKP_PUBLIC_INPUTS_HASH_DOMAIN);
    m.push(0u8);
    push_bytes(&mut m, public_inputs);
    assert(m@ =~= encode_utf8(ZKP_PUBLIC_INPUTS_HASH_DOMAIN@) + seq![0u8] + public_inputs@);
    let digest = sha3_256_digest(m.as_slice());
    proof {
        lemma_hex_upper_roundtrip(digest@);
        crate::text::lemma_hex_upper_len(digest@);
    }
    encode_hex_upper(&digest)
}

/// Checks a hash text and returns its uppercase form.
fn canonicalize_hash_hex(value: &str) -> (r: Result<String, ZkpError>)
    ensures
        match r {
            Ok(s) => !hash_hex_invalid(value@) && s@ == canonical_hash(value@),
            Err(e) => hash_hex_invalid(value@) && e == ZkpError::InvalidPublicInputsHash,
        },
{
    let cs = chars_of(value);
    if is_blank(&cs) || has_outer_ws(&cs) {
        return Err(ZkpError::InvalidPublicInputsHash);
    }
    if byte_len_of(&cs) != ZKP_PUBLIC_INPUTS_HASH_HEX_LEN as u128 {
        return Err(ZkpError::InvalidPublicInputsHash);
    }
    match decode_hex(&cs) {
        None => Err(ZkpError::InvalidPublicInputsHash),
        Some(bytes) => Ok(encode_hex_upper(bytes.as_slice())),
    }
}

/// Builds the envelope for a circuit id taken as given.
fn build_pseudo_proof(circuit_id: &str, witness: &[u8], public_inputs: &[u8]) -> (r: ZkpProof)
    ensures
        builds(r, circuit_id@, witness@, public_inputs@),
        r.proof_bytes@.len() == ZKP_PROOF_BYTES_LEN,
        !hash_hex_invalid(r.public_inputs_hash@),
        canonical_hash(r.public_inputs_hash@) == r.public_inputs_hash@,
        r.public_inputs_hash@.len() == ZKP_PUBLIC_INPUTS_HASH_HEX_LEN,
        tag(ZKP_CIRCUIT_TAG_DOMAIN@, encode_utf8(circuit_id@), 8).len() == 8,
        tag(ZKP_PUBLIC_INPUT_TAG_DOMAIN@, public_inputs@, 8).len() == 8,
{
    let public_inputs_hash = compute_public_inputs_hash(public_inputs);
    let circuit_tag = compute_tag(ZKP_CIRCUIT_TAG_DOMAIN, circuit_id.as_bytes(), 8);
    let public_input_tag = compute_tag(ZKP_PUBLIC_INPUT_TAG_DOMAIN, public_inputs, 8);
    let mut material: Vec<u8> = Vec::new();
    push_str_bytes(&mut material, ZKP_PROOF_DOMAIN);
    material.push(0u8);
    push_str_bytes(&mut material, circuit_id);
    material.push(0u8);
    push_str_bytes(&mut material, public_inputs_hash.as_str());
    material.push(0u8);
    push_bytes(&mut material, witness);
    assert(material@ =~= witness_material(circuit_id@, witness@, public_inputs@));
    let witness_tag = compute_tag(ZKP_WITNESS_TAG_DOMAIN, material.as_slice(), 16);
    let mut proof_bytes: Vec<u8> = Vec::new();
    push_bytes(&mut proof_bytes, circuit_tag.as_slice());
    push_bytes(&mut proof_bytes, public_input_tag.as_slice());
    push_bytes(&mut proof_bytes, witness_tag.as_slice());
    assert(proof_bytes@ =~= proof_bytes_of(circuit_id@, witness@, public_inputs@));
    ZkpProof { circuit_id: str_to_string(circuit_id), proof_bytes, public_inputs_hash }
}

/// An envelope built by `build_pseudo_proof` for a valid circuit id passes
/// verification against the same public inputs, unless its witness tag
/// happens to be all zero bytes.
proof fn lemma_built_proof_verifies(p: ZkpProof, witness: Seq<u8>, public_inputs: Seq<u8>)
    requires
        builds(p, p.circuit_id@, witness, public_inputs),
        circuit_id_error(p.circuit_id@) is None,
        p.proof_bytes@.len() == ZKP_PROOF_BYTES_LEN,
        !hash_hex_invalid(p.public_inputs_hash@),
        canonical_hash(p.public_inputs_hash@) == p.public_inputs_hash@,
        p.public_inputs_hash@.len() == ZKP_PUBLIC_INPUTS_HASH_HEX_LEN,
        !all_zero_bytes(p.proof_bytes@.subrange(16, 32)),
        tag(ZKP_CIRCUIT_TAG_DOMAIN@, encode_utf8(p.circuit_id@), 8).len() == 8,
        tag(ZKP_PUBLIC_INPUT_TAG_DOMAIN@, public_inputs, 8).len() == 8,
    ensures
        verify_error(p, public_inputs) is None,
{
    let pb = p.proof_bytes@;
    let ct = tag(ZKP_CIRCUIT_TAG_DOMAIN@, encode_utf8(p.circuit_id@), 8);
    let pt = tag(ZKP_PUBLIC_INPUT_TAG_DOMAIN@, public_inputs, 8);
    let wt = tag(ZKP_WITNESS_TAG_DOMAIN@, witness_material(p.circuit_id@, witness, public_inputs), 16);
    assert(pb == ct + pt + wt);
    assert(pb.take(8) =~= ct);
    assert(pb.subrange(8, 16) =~= pt);
}

impl ZkpProof {
    /// Checks the envelope's structure: circuit id, proof length and hash
    /// format.
    pub fn validate(&self) -> (r: Result<(), ZkpError>)
        ensures
            r == match proof_error(*self) {
                Some(e) => Err(e),
                None => Ok(()),
            },
    {
        if let Err(e) = validate_circuit_id(self.circuit_id.as_str()) {
            return Err(e);
        }
        if self.proof_bytes.len() != ZKP_PROOF_BYTES_LEN {
            return Err(ZkpError::InvalidProofLength);
        }
        let canonical = match canonicalize_hash_hex(self.public_inputs_hash.as_str()) {
            Ok(s) => s,
            Err(e) => return Err(e),
        };
        let cs = chars_of(canonical.as_str());
        if cs.len() != ZKP_PUBLIC_INPUTS_HASH_HEX_LEN {
            return Err(ZkpError::InvalidPublicInputsHash);
        }
        Ok(())
    }

    /// Short deterministic fingerprint of the envelope (16 uppercase
    /// hexadecimal characters).
    pub fn fingerprint(&self) -> (r: String)
        ensures
            r@ == short_digest_hex(
                encode_utf8(ZKP_PROOF_FINGERPRINT_DOMAIN@) + seq![0u8] + encode_utf8(self.circuit_id@)
                    + seq![0u8] + self.proof_bytes@ + seq![0u8] + encode_utf8(
                    self.public_inputs_hash@,
                ),
            ),
    {
        let mut m: Vec<u8> = Vec::new();
        push_str_bytes(&mut m, ZKP_PROOF_FINGERPRINT_DOMAIN);
        m.push(0u8);
        push_str_bytes(&mut m, self.circuit_id.as_str());
        m.push(0u8);
        push_bytes(&mut m, self.proof_bytes.as_slice());
        m.push(0u8);
        push_str_bytes(&mut m, self.public_inputs_hash.as_str());
        assert(m@ =~= encode_utf8(ZKP_PROOF_FINGERPRINT_DOMAIN@) + seq![0u8] + encode_utf8(self.circuit_id@)
            + seq![0u8] + self.proof_bytes@ + seq![0u8] + encode_utf8(self.public_inputs_hash@));
        let digest = sha3_256_digest(m.as_slice());
        hex_upper_prefix(&digest, 8)
    }
}

/// Builds an envelope, first canonicalizing the circuit id lossily. The
/// envelope verifies against the same public inputs unless its witness tag
/// is all zero bytes.
pub fn generate_proof(circuit_id: &str, witness: &[u8], public_inputs: &[u8]) -> (r: ZkpProof)
    ensures
        builds(r, lossy_circuit_id(circuit_id@), witness@, public_inputs@),
        !all_zero_bytes(r.proof_bytes@.subrange(16, 32)) ==> verify_error(r, public_inputs@) is None,
{
    let canonical = canonicalize_circuit_id_lossy(circuit_id);
    let r = build_pseudo_proof(canonical.as_str(), witness, public_inputs);
    proof {
        if !all_zero_bytes(r.proof_bytes@.subrange(16, 32)) {
            lemma_built_proof_verifies(r, witness@, public_inputs@);
        }
    }
    r
}

/// Builds an envelope for a circuit id that must already be valid. The
/// envelope verifies against the same public inputs unless its witness tag
/// is all zero bytes.
pub fn generate_proof_strict(circuit_id: &str, witness: &[u8], public_inputs: &[u8]) -> (r: Result<
    ZkpProof,
    ZkpError,
>)
    ensures
        match r {
            Ok(p) => circuit_id_error(circuit_id@) is None && builds(p, circuit_id@, witness@, public_inputs@)
                && (!all_zero_bytes(p.proof_bytes@.subrange(16, 32)) ==> verify_error(p, public_inputs@) is None),
            Err(e) => circuit_id_error(circuit_id@) == Some(e),
        },
{
    if let Err(e) = validate_circuit_id(circuit_id) {
        return Err(e);
    }
    let r = build_pseudo_proof(circuit_id, witness, public_inputs);
    proof {
        if !all_zero_bytes(r.proof_bytes@.subrange(16, 32)) {
            lemma_built_proof_verifies(r, witness@, public_inputs@);
        }
    }
    Ok(r)
}

/// Verifies an envelope against the expected public inputs, reporting the
/// first rule broken.
pub fn verify_proof_detailed(proof: &ZkpProof, expected_public_inputs: &[u8]) -> (r: Result<(), ZkpError>)
    ensures
        r == match verify_error(*proof, expected_public_inputs@) {
            Some(e) => Err(e),
            None => Ok(()),
        },
{
    if let Err(e) = proof.validate() {
        return Err(e);
    }
    let expected = compute_public_inputs_hash(expected_public_inputs);
    let stored = match canonicalize_hash_hex(proof.public_inputs_hash.as_str()) {
        Ok(s) => s,
        Err(e) => return Err(e),
    };
    if stored != expected {
        return Err(ZkpError::PublicInputMismatch);
    }
    let circuit_tag = compute_tag(ZKP_CIRCUIT_TAG_DOMAIN, proof.circuit_id.as_str().as_bytes(), 8);
    let public_input_tag = compute_tag(ZKP_PUBLIC_INPUT_TAG_DOMAIN, expected_public_inputs, 8);
    let head = bytes_range(proof.proof_bytes.as_slice(), 0, 8);
    assert(head@ =~= proof.proof_bytes@.take(8));
    if !bytes_eq(head.as_slice(), circuit_tag.as_slice()) {
        return Err(ZkpError::CircuitMismatch);
    }
    let middle = bytes_range(proof.proof_bytes.as_slice(), 8, 16);
    if !bytes_eq(middle.as_slice(), public_input_tag.as_slice()) {
        return Err(ZkpError::PublicInputMismatch);
    }
    let tail = bytes_range(proof.proof_bytes.as_slice(), 16, 32);
    if all_zero(tail.as_slice()) {
        return Err(ZkpError::InvalidProofEncoding);
    }
    Ok(())
}

/// Verifies an envelope, reporting a failure by its error code.
pub fn verify_proof(proof: &ZkpProof, expected_public_inputs: &[u8]) -> (r: Result<(), String>)
    ensures
        match verify_error(*proof, expected_public_inputs@) {
            Some(e) => r is Err && r->Err_0@ == e.code_text(),
            None => r is Ok,
        },
{
    match verify_proof_detailed(proof, expected_public_inputs) {
        Ok(()) => Ok(()),
        Err(e) => Err(str_to_string(e.code())),
    }
}

/// Verifies the envelope, then asks the backend. An envelope failure is
/// reported without consulting the backend; otherwise the backend's answer
/// is returned.
pub fn verify_proof_with_backend<B: ZkpBackend>(
    proof: &ZkpProof,
    expected_public_inputs: &[u8],
    backend: &B,
) -> (r: Result<(), ZkpError>)
    ensures
        verify_error(*proof, expected_public_inputs@) is Some ==> r == Err::<(), ZkpError>(
            verify_error(*proof, expected_public_inputs@).unwrap(),
        ),
{
    if let Err(e) = verify_proof_detailed(proof, expected_public_inputs) {
        return Err(e);
    }
    backend.verify(proof, expected_public_inputs)
}

} // verus!
