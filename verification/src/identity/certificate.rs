//! Identity certificates: canonical fields, validation before and after
//! signing, the JSON signing payload and an operator-facing fingerprint.

use vstd::prelude::*;
use vstd::utf8::encode_utf8;

use crate::crypto::sha3_256;
use crate::crypto::sha3_256_digest;
use crate::platform::unix_time_seconds;
use crate::text::all_ascii;
use crate::text::all_chars;
use crate::text::lemma_ascii_byte_len;
use crate::text::all_hex;
use crate::text::all_ident;
use crate::text::all_label;
use crate::text::byte_len;
use crate::text::byte_len_of;
use crate::text::chars_of;
use crate::text::chars_start_with;
use crate::text::dec_bytes;
use crate::text::decode_hex;
use crate::text::has_outer_ws;
use crate::text::hex_decode;
use crate::text::hex_upper;
use crate::text::is_ascii_hexdigit;
use crate::text::is_blank;
use crate::text::is_ident_char;
use crate::text::is_label_char;
use crate::text::json_string;
use crate::text::push_bytes;
use crate::text::push_chars;
use crate::text::push_dec_bytes;
use crate::text::push_hex_upper;
use crate::text::push_json_string;
use crate::text::push_str;
use crate::text::push_str_bytes;
use crate::text::starts_with;
use crate::text::str_to_string;
use crate::text::string_from_chars;
use crate::text::trim;

verus! {

/// Certificate schema version.
pub const CERTIFICATE_VERSION: u8 = 1;

pub const MAX_CHAIN_LEN: usize = 64;

pub const MAX_ACTOR_ID_LEN: usize = 128;

pub const MAX_ROLE_LEN: usize = 32;

pub const MAX_ZONE_LEN: usize = 32;

pub const MAX_ISSUER_LEN: usize = 128;

pub const MAX_PUBKEY_HEX_LEN: usize = 8192;

pub const MAX_SIGNATURE_HEX_LEN: usize = 16384;

/// Domain separator of certificate fingerprints.
pub const CERTIFICATE_FINGERPRINT_DOMAIN: &'static str = "AOXC/IDENTITY/CERTIFICATE/FINGERPRINT/V1";

/// The signed part of a certificate (everything but the signature).
#[derive(Debug, Clone, PartialEq, Eq)]
pub struct CertificateSigningPayload {
    pub version: u8,
    pub chain: String,
    pub actor_id: String,
    pub role: String,
    pub zone: String,
    pub pubkey: String,
    pub issued_at: u64,
    pub expires_at: u64,
    pub issuer: String,
}

/// Identity certificate.
#[derive(Debug, Clone, PartialEq, Eq)]
pub struct Certificate {
    pub version: u8,
    pub chain: String,
    pub actor_id: String,
    pub role: String,
    pub zone: String,
    pub pubkey: String,
    pub issued_at: u64,
    pub expires_at: u64,
    pub issuer: String,
    pub signature: String,
}

/// Lifecycle state at a timestamp.
#[derive(Debug, Clone, Copy, PartialEq, Eq, Structural)]
pub enum CertificateValidityState {
    NotYetValid,
    Valid,
    Expired,
}

/// Certificate validation and lifecycle errors.
#[derive(Debug, Clone, PartialEq, Eq)]
#[non_exhaustive]
pub enum CertificateError {
    InvalidVersion,
    EmptyChain,
    InvalidChain,
    EmptyActorId,
    InvalidActorId,
    EmptyRole,
    InvalidRole,
    EmptyZone,
    InvalidZone,
    EmptyPublicKey,
    InvalidPublicKeyHex,
    InvalidIssuedAt,
    InvalidExpiresAt,
    InvalidValidityWindow,
    EmptyIssuer,
    InvalidIssuer,
    EmptySignature,
    InvalidSignatureHex,
    SerializationFailed(String),
    TimeError,
}

impl CertificateError {
    pub open spec fn code_text(&self) -> Seq<char> {
        match self {
            CertificateError::InvalidVersion => "CERT_INVALID_VERSION"@,
            CertificateError::EmptyChain => "CERT_EMPTY_CHAIN"@,
            CertificateError::InvalidChain => "CERT_INVALID_CHAIN"@,
            CertificateError::EmptyActorId => "CERT_EMPTY_ACTOR_ID"@,
            CertificateError::InvalidActorId => "CERT_INVALID_ACTOR_ID"@,
            CertificateError::EmptyRole => "CERT_EMPTY_ROLE"@,
            CertificateError::InvalidRole => "CERT_INVALID_ROLE"@,
            CertificateError::EmptyZone => "CERT_EMPTY_ZONE"@,
            CertificateError::InvalidZone => "CERT_INVALID_ZONE"@,
            CertificateError::EmptyPublicKey => "CERT_EMPTY_PUBLIC_KEY"@,
            CertificateError::InvalidPublicKeyHex => "CERT_INVALID_PUBLIC_KEY_HEX"@,
            CertificateError::InvalidIssuedAt => "CERT_INVALID_ISSUED_AT"@,
            CertificateError::InvalidExpiresAt => "CERT_INVALID_EXPIRES_AT"@,
            CertificateError::InvalidValidityWindow => "CERT_INVALID_VALIDITY_WINDOW"@,
            CertificateError::EmptyIssuer => "CERT_EMPTY_ISSUER"@,
            CertificateError::InvalidIssuer => "CERT_INVALID_ISSUER"@,
            CertificateError::EmptySignature => "CERT_EMPTY_SIGNATURE"@,
            CertificateError::InvalidSignatureHex => "CERT_INVALID_SIGNATURE_HEX"@,
            CertificateError::SerializationFailed(_) => "CERT_SERIALIZATION_FAILED"@,
            CertificateError::TimeError => "CERT_TIME_ERROR"@,
        }
    }

    /// Stable symbolic error code.
    pub fn code(&self) -> (r: &'static str)
        ensures
            r@ == self.code_text(),
    {
        match self {
            CertificateError::InvalidVersion => "CERT_INVALID_VERSION",
            CertificateError::EmptyChain => "CERT_EMPTY_CHAIN",
            CertificateError::InvalidChain => "CERT_INVALID_CHAIN",
            CertificateError::EmptyActorId => "CERT_EMPTY_ACTOR_ID",
            CertificateError::InvalidActorId => "CERT_INVALID_ACTOR_ID",
            CertificateError::EmptyRole => "CERT_EMPTY_ROLE",
            CertificateError::InvalidRole => "CERT_INVALID_ROLE",
            CertificateError::EmptyZone => "CERT_EMPTY_ZONE",
            CertificateError::InvalidZone => "CERT_INVALID_ZONE",
            CertificateError::EmptyPublicKey => "CERT_EMPTY_PUBLIC_KEY",
            CertificateError::InvalidPublicKeyHex => "CERT_INVALID_PUBLIC_KEY_HEX",
            CertificateError::InvalidIssuedAt => "CERT_INVALID_ISSUED_AT",
            CertificateError::InvalidExpiresAt => "CERT_INVALID_EXPIRES_AT",
            CertificateError::InvalidValidityWindow => "CERT_INVALID_VALIDITY_WINDOW",
            CertificateError::EmptyIssuer => "CERT_EMPTY_ISSUER",
            CertificateError::InvalidIssuer => "CERT_INVALID_ISSUER",
            CertificateError::EmptySignature => "CERT_EMPTY_SIGNATURE",
            CertificateError::InvalidSignatureHex => "CERT_INVALID_SIGNATURE_HEX",
            CertificateError::SerializationFailed(_) => "CERT_SERIALIZATION_FAILED",
            CertificateError::TimeError => "CERT_TIME_ERROR",
        }
    }

    pub open spec fn message_text(&self) -> Seq<char> {
        match self {
            CertificateError::InvalidVersion => "certificate validation failed: unsupported version"@,
            CertificateError::EmptyChain => "certificate validation failed: chain must not be empty"@,
            CertificateError::InvalidChain => "certificate validation failed: chain format is invalid"@,
            CertificateError::EmptyActorId => "certificate validation failed: actor_id must not be empty"@,
            CertificateError::InvalidActorId => "certificate validation failed: actor_id format is invalid"@,
            CertificateError::EmptyRole => "certificate validation failed: role must not be empty"@,
            CertificateError::InvalidRole => "certificate validation failed: role format is invalid"@,
            CertificateError::EmptyZone => "certificate validation failed: zone must not be empty"@,
            CertificateError::InvalidZone => "certificate validation failed: zone format is invalid"@,
            CertificateError::EmptyPublicKey => "certificate validation failed: public key must not be empty"@,
            CertificateError::InvalidPublicKeyHex => "certificate validation failed: public key must be valid hexadecimal"@,
            CertificateError::InvalidIssuedAt => "certificate validation failed: issued_at is invalid"@,
            CertificateError::InvalidExpiresAt => "certificate validation failed: expires_at is invalid"@,
            CertificateError::InvalidValidityWindow => "certificate validation failed: expires_at must be greater than issued_at"@,
            CertificateError::EmptyIssuer => "certificate validation failed: issuer must not be empty"@,
            CertificateError::InvalidIssuer => "certificate validation failed: issuer format is invalid"@,
            CertificateError::EmptySignature => "certificate validation failed: signature must not be empty"@,
            CertificateError::InvalidSignatureHex => "certificate validation failed: signature must be valid hexadecimal"@,
            CertificateError::SerializationFailed(e) => "certificate serialization failed: "@ + e@,
            CertificateError::TimeError => "certificate time check failed: system time is invalid"@,
        }
    }

    /// Human-readable description of the error.
    pub fn message(&self) -> (r: String)
        ensures
            r@ == self.message_text(),
    {
        match self {
            CertificateError::InvalidVersion => str_to_string("certificate validation failed: unsupported version"),
            CertificateError::EmptyChain => str_to_string("certificate validation failed: chain must not be empty"),
            CertificateError::InvalidChain => str_to_string("certificate validation failed: chain format is invalid"),
            CertificateError::EmptyActorId => str_to_string("certificate validation failed: actor_id must not be empty"),
            CertificateError::InvalidActorId => str_to_string("certificate validation failed: actor_id format is invalid"),
            CertificateError::EmptyRole => str_to_string("certificate validation failed: role must not be empty"),
            CertificateError::InvalidRole => str_to_string("certificate validation failed: role format is invalid"),
            CertificateError::EmptyZone => str_to_string("certificate validation failed: zone must not be empty"),
            CertificateError::InvalidZone => str_to_string("certificate validation failed: zone format is invalid"),
            CertificateError::EmptyPublicKey => str_to_string("certificate validation failed: public key must not be empty"),
            CertificateError::InvalidPublicKeyHex => str_to_string("certificate validation failed: public key must be valid hexadecimal"),
            CertificateError::InvalidIssuedAt => str_to_string("certificate validation failed: issued_at is invalid"),
            CertificateError::InvalidExpiresAt => str_to_string("certificate validation failed: expires_at is invalid"),
            CertificateError::InvalidValidityWindow => str_to_string("certificate validation failed: expires_at must be greater than issued_at"),
            CertificateError::EmptyIssuer => str_to_string("certificate validation failed: issuer must not be empty"),
            CertificateError::InvalidIssuer => str_to_string("certificate validation failed: issuer format is invalid"),
            CertificateError::EmptySignature => str_to_string("certificate validation failed: signature must not be empty"),
            CertificateError::InvalidSignatureHex => str_to_string("certificate validation failed: signature must be valid hexadecimal"),
            CertificateError::SerializationFailed(e) => {
                let mut out: Vec<char> = Vec::new();
                push_str(&mut out, "certificate serialization failed: ");
                push_str(&mut out, e.as_str());
                string_from_chars(&out)
            },
            CertificateError::TimeError => str_to_string("certificate time check failed: system time is invalid"),
        }
    }
}

pub open spec fn outcome(e: Option<CertificateError>) -> Result<(), CertificateError> {
    match e {
        Some(e) => Err(e),
        None => Ok(()),
    }
}

// ---------------------------------------------------------------------------
// Field rules
// ---------------------------------------------------------------------------

/// Blank text reports `empty`; text with outer whitespace reports `invalid`.
pub open spec fn presence_error(s: Seq<char>, empty: CertificateError, invalid: CertificateError) -> Option<CertificateError> {
    if trim(s).len() == 0 {
        Some(empty)
    } else if trim(s) != s {
        Some(invalid)
    } else {
        None
    }
}

pub open spec fn chain_error(s: Seq<char>) -> Option<CertificateError> {
    if presence_error(s, CertificateError::EmptyChain, CertificateError::InvalidChain) is Some {
        presence_error(s, CertificateError::EmptyChain, CertificateError::InvalidChain)
    } else if byte_len(s) > MAX_CHAIN_LEN || !all_chars(s, |c: char| is_ident_char(c)) {
        Some(CertificateError::InvalidChain)
    } else {
        None
    }
}

pub open spec fn actor_id_error(s: Seq<char>) -> Option<CertificateError> {
    if presence_error(s, CertificateError::EmptyActorId, CertificateError::InvalidActorId) is Some {
        presence_error(s, CertificateError::EmptyActorId, CertificateError::InvalidActorId)
    } else if byte_len(s) > MAX_ACTOR_ID_LEN || !starts_with(s, "AOXC-"@) || !all_chars(
        s,
        |c: char| is_ident_char(c),
    ) {
        Some(CertificateError::InvalidActorId)
    } else {
        None
    }
}

pub open spec fn role_error(s: Seq<char>) -> Option<CertificateError> {
    if presence_error(s, CertificateError::EmptyRole, CertificateError::InvalidRole) is Some {
        presence_error(s, CertificateError::EmptyRole, CertificateError::InvalidRole)
    } else if byte_len(s) > MAX_ROLE_LEN || !all_chars(s, |c: char| is_label_char(c)) {
        Some(CertificateError::InvalidRole)
    } else {
        None
    }
}

pub open spec fn zone_error(s: Seq<char>) -> Option<CertificateError> {
    if presence_error(s, CertificateError::EmptyZone, CertificateError::InvalidZone) is Some {
        presence_error(s, CertificateError::EmptyZone, CertificateError::InvalidZone)
    } else if byte_len(s) > MAX_ZONE_LEN || !all_chars(s, |c: char| is_label_char(c)) {
        Some(CertificateError::InvalidZone)
    } else {
        None
    }
}

pub open spec fn issuer_error(s: Seq<char>) -> Option<CertificateError> {
    if presence_error(s, CertificateError::EmptyIssuer, CertificateError::InvalidIssuer) is Some {
        presence_error(s, CertificateError::EmptyIssuer, CertificateError::InvalidIssuer)
    } else if byte_len(s) > MAX_ISSUER_LEN || !all_chars(s, |c: char| is_ident_char(c)) {
        Some(CertificateError::InvalidIssuer)
    } else {
        None
    }
}

/// Bounded, even-length hexadecimal text.
pub open spec fn hex_field_error(
    s: Seq<char>,
    empty: CertificateError,
    invalid: CertificateError,
    max: nat,
) -> Option<CertificateError> {
    if presence_error(s, empty, invalid) is Some {
        presence_error(s, empty, invalid)
    } else if byte_len(s) > max || byte_len(s) % 2 != 0 || !all_chars(
        s,
        |c: char| is_ascii_hexdigit(c),
    ) {
        Some(invalid)
    } else {
        None
    }
}

pub open spec fn pubkey_error(s: Seq<char>) -> Option<CertificateError> {
    hex_field_error(
        s,
        CertificateError::EmptyPublicKey,
        CertificateError::InvalidPublicKeyHex,
        MAX_PUBKEY_HEX_LEN as nat,
    )
}

pub open spec fn signature_error(s: Seq<char>) -> Option<CertificateError> {
    hex_field_error(
        s,
        CertificateError::EmptySignature,
        CertificateError::InvalidSignatureHex,
        MAX_SIGNATURE_HEX_LEN as nat,
    )
}

pub open spec fn window_error(issued_at: u64, expires_at: u64) -> Option<CertificateError> {
    if issued_at == 0 {
        Some(CertificateError::InvalidIssuedAt)
    } else if expires_at == 0 {
        Some(CertificateError::InvalidExpiresAt)
    } else if expires_at <= issued_at {
        Some(CertificateError::InvalidValidityWindow)
    } else {
        None
    }
}

/// Blank, carrying outer whitespace, or present.
#[derive(Debug, Clone, Copy, PartialEq, Eq, Structural)]
pub enum PresenceCheck {
    Blank,
    OuterWhitespace,
    Present,
}

pub open spec fn presence_of(s: Seq<char>) -> PresenceCheck {
    if trim(s).len() == 0 {
        PresenceCheck::Blank
    } else if trim(s) != s {
        PresenceCheck::OuterWhitespace
    } else {
        PresenceCheck::Present
    }
}

fn check_presence(s: &[char]) -> (r: PresenceCheck)
    ensures
        r == presence_of(s@),
{
    if is_blank(s) {
        return PresenceCheck::Blank;
    }
    if has_outer_ws(s) {
        return PresenceCheck::OuterWhitespace;
    }
    PresenceCheck::Present
}

fn validate_validity_window(issued_at: u64, expires_at: u64) -> (r: Result<(), CertificateError>)
    ensures
        r == outcome(window_error(issued_at, expires_at)),
{
    if issued_at == 0 {
        return Err(CertificateError::InvalidIssuedAt);
    }
    if expires_at == 0 {
        return Err(CertificateError::InvalidExpiresAt);
    }
    if expires_at <= issued_at {
        return Err(CertificateError::InvalidValidityWindow);
    }
    Ok(())
}

fn validate_chain(value: &str) -> (r: Result<(), CertificateError>)
    ensures
        r == outcome(chain_error(value@)),
{
    let cs = chars_of(value);
    match check_presence(&cs) {
        PresenceCheck::Blank => return Err(CertificateError::EmptyChain),
        PresenceCheck::OuterWhitespace => return Err(CertificateError::InvalidChain),
        PresenceCheck::Present => {},
    }
    if byte_len_of(&cs) > MAX_CHAIN_LEN as u128 || !all_ident(&cs) {
        return Err(CertificateError::InvalidChain);
    }
    Ok(())
}

fn validate_actor_id(value: &str) -> (r: Result<(), CertificateError>)
    ensures
        r == outcome(actor_id_error(value@)),
{
    let cs = chars_of(value);
    match check_presence(&cs) {
        PresenceCheck::Blank => return Err(CertificateError::EmptyActorId),
        PresenceCheck::OuterWhitespace => return Err(CertificateError::InvalidActorId),
        PresenceCheck::Present => {},
    }
    let prefix = chars_of("AOXC-");
    if byte_len_of(&cs) > MAX_ACTOR_ID_LEN as u128 || !chars_start_with(&cs, &prefix) || !all_ident(
        &cs,
    ) {
        return Err(CertificateError::InvalidActorId);
    }
    Ok(())
}

fn validate_role(value: &str) -> (r: Result<(), CertificateError>)
    ensures
        r == outcome(role_error(value@)),
{
    let cs = chars_of(value);
    match check_presence(&cs) {
        PresenceCheck::Blank => return Err(CertificateError::EmptyRole),
        PresenceCheck::OuterWhitespace => return Err(CertificateError::InvalidRole),
        PresenceCheck::Present => {},
    }
    if byte_len_of(&cs) > MAX_ROLE_LEN as u128 || !all_label(&cs) {
        return Err(CertificateError::InvalidRole);
    }
    Ok(())
}

fn validate_zone(value: &str) -> (r: Result<(), CertificateError>)
    ensures
        r == outcome(zone_error(value@)),
{
    let cs = chars_of(value);
    match check_presence(&cs) {
        PresenceCheck::Blank => return Err(CertificateError::EmptyZone),
        PresenceCheck::OuterWhitespace => return Err(CertificateError::InvalidZone),
        PresenceCheck::Present => {},
    }
    if byte_len_of(&cs) > MAX_ZONE_LEN as u128 || !all_label(&cs) {
        return Err(CertificateError::InvalidZone);
    }
    Ok(())
}

fn validate_issuer(value: &str) -> (r: Result<(), CertificateError>)
    ensures
        r == outcome(issuer_error(value@)),
{
    let cs = chars_of(value);
    match check_presence(&cs) {
        PresenceCheck::Blank => return Err(CertificateError::EmptyIssuer),
        PresenceCheck::OuterWhitespace => return Err(CertificateError::InvalidIssuer),
        PresenceCheck::Present => {},
    }
    if byte_len_of(&cs) > MAX_ISSUER_LEN as u128 || !all_ident(&cs) {
        return Err(CertificateError::InvalidIssuer);
    }
    Ok(())
}

fn validate_hex_field(value: &str, is_pubkey: bool, max_len: usize) -> (r: Result<(), CertificateError>)
    ensures
        is_pubkey ==> r == outcome(hex_field_error(value@, CertificateError::EmptyPublicKey, CertificateError::InvalidPublicKeyHex, max_len as nat)),
        !is_pubkey ==> r == outcome(hex_field_error(value@, CertificateError::EmptySignature, CertificateError::InvalidSignatureHex, max_len as nat)),
{
    let cs = chars_of(value);
    match check_presence(&cs) {
        PresenceCheck::Blank => {
            return if is_pubkey {
                Err(CertificateError::EmptyPublicKey)
            } else {
                Err(CertificateError::EmptySignature)
            };
        },
        PresenceCheck::OuterWhitespace => {
            return if is_pubkey {
                Err(CertificateError::InvalidPublicKeyHex)
            } else {
                Err(CertificateError::InvalidSignatureHex)
            };
        },
        PresenceCheck::Present => {},
    }
    let n = byte_len_of(&cs);
    if n > max_len as u128 || n % 2 != 0 || !all_hex(&cs) {
        return if is_pubkey {
            Err(CertificateError::InvalidPublicKeyHex)
        } else {
            Err(CertificateError::InvalidSignatureHex)
        };
    }
    Ok(())
}

fn validate_pubkey_hex(value: &str) -> (r: Result<(), CertificateError>)
    ensures
        r == outcome(pubkey_error(value@)),
{
    validate_hex_field(value, true, MAX_PUBKEY_HEX_LEN)
}

fn validate_signature_hex(value: &str) -> (r: Result<(), CertificateError>)
    ensures
        r == outcome(signature_error(value@)),
{
    validate_hex_field(value, false, MAX_SIGNATURE_HEX_LEN)
}

// ---------------------------------------------------------------------------
// Validation models
// ---------------------------------------------------------------------------

/// Hexadecimal text is ASCII, so its byte length is its length.
pub proof fn lemma_hex_text_len(s: Seq<char>)
    ensures
        all_chars(s, |c: char| is_ascii_hexdigit(c)) ==> byte_len(s) == s.len(),
{
    if all_chars(s, |c: char| is_ascii_hexdigit(c)) {
        assert(all_ascii(s)) by {
            assert forall|i: int| 0 <= i < s.len() implies (#[trigger] s[i] as u32) < 128 by {
                assert(is_ascii_hexdigit(s[i]));
            }
        }
        lemma_ascii_byte_len(s);
    }
}

/// The first rule an unsigned certificate breaks.
pub open spec fn unsigned_error(c: Certificate) -> Option<CertificateError> {
    if c.version != CERTIFICATE_VERSION {
        Some(CertificateError::InvalidVersion)
    } else if chain_error(c.chain@) is Some {
        chain_error(c.chain@)
    } else if actor_id_error(c.actor_id@) is Some {
        actor_id_error(c.actor_id@)
    } else if role_error(c.role@) is Some {
        role_error(c.role@)
    } else if zone_error(c.zone@) is Some {
        zone_error(c.zone@)
    } else if pubkey_error(c.pubkey@) is Some {
        pubkey_error(c.pubkey@)
    } else {
        window_error(c.issued_at, c.expires_at)
    }
}

/// The first rule a signed certificate breaks.
pub open spec fn signed_error(c: Certificate) -> Option<CertificateError> {
    if unsigned_error(c) is Some {
        unsigned_error(c)
    } else if issuer_error(c.issuer@) is Some {
        issuer_error(c.issuer@)
    } else {
        signature_error(c.signature@)
    }
}

/// The first rule a signing payload breaks.
pub open spec fn payload_error(p: CertificateSigningPayload) -> Option<CertificateError> {
    if p.version != CERTIFICATE_VERSION {
        Some(CertificateError::InvalidVersion)
    } else if chain_error(p.chain@) is Some {
        chain_error(p.chain@)
    } else if actor_id_error(p.actor_id@) is Some {
        actor_id_error(p.actor_id@)
    } else if role_error(p.role@) is Some {
        role_error(p.role@)
    } else if zone_error(p.zone@) is Some {
        zone_error(p.zone@)
    } else if pubkey_error(p.pubkey@) is Some {
        pubkey_error(p.pubkey@)
    } else if issuer_error(p.issuer@) is Some {
        issuer_error(p.issuer@)
    } else {
        window_error(p.issued_at, p.expires_at)
    }
}

/// `issued_at <= t < expires_at`.
pub open spec fn valid_at(c: Certificate, t: u64) -> bool {
    t >= c.issued_at && t < c.expires_at
}

/// `t >= expires_at`.
pub open spec fn expired_at(c: Certificate, t: u64) -> bool {
    t >= c.expires_at
}

/// `t < issued_at`.
pub open spec fn not_yet_valid_at(c: Certificate, t: u64) -> bool {
    t < c.issued_at
}

/// `"key":` as bytes.
pub open spec fn json_key(k: Seq<char>) -> Seq<u8> {
    json_string(k) + seq![58u8]
}

/// Opening brace and the fields `version` to `role`, each followed by a comma.
pub open spec fn payload_json_head(p: CertificateSigningPayload) -> Seq<u8> {
    seq![123u8] + json_key("version"@) + dec_bytes(p.version as nat) + seq![44u8] + json_key(
        "chain"@,
    ) + json_string(p.chain@) + seq![44u8] + json_key("actor_id"@) + json_string(p.actor_id@)
        + seq![44u8] + json_key("role"@) + json_string(p.role@) + seq![44u8]
}

/// The fields `zone` to `issuer`, comma-separated.
pub open spec fn payload_json_tail(p: CertificateSigningPayload) -> Seq<u8> {
    json_key("zone"@) + json_string(p.zone@) + seq![44u8] + json_key("pubkey"@) + json_string(
        p.pubkey@,
    ) + seq![44u8] + json_key("issued_at"@) + dec_bytes(p.issued_at as nat) + seq![44u8]
        + json_key("expires_at"@) + dec_bytes(p.expires_at as nat) + seq![44u8] + json_key(
        "issuer"@,
    ) + json_string(p.issuer@)
}

/// The compact JSON object of a signing payload, fields in declaration order.
pub open spec fn payload_json(p: CertificateSigningPayload) -> Seq<u8> {
    payload_json_head(p) + payload_json_tail(p) + seq![125u8]
}

/// The payload of a certificate.
pub open spec fn payload_of(c: Certificate) -> CertificateSigningPayload {
    CertificateSigningPayload {
        version: c.version,
        chain: c.chain,
        actor_id: c.actor_id,
        role: c.role,
        zone: c.zone,
        pubkey: c.pubkey,
        issued_at: c.issued_at,
        expires_at: c.expires_at,
        issuer: c.issuer,
    }
}

/// The compact JSON object of a whole certificate: the payload fields, then
/// the signature.
pub open spec fn certificate_json(c: Certificate) -> Seq<u8> {
    payload_json_head(payload_of(c)) + payload_json_tail(payload_of(c)) + seq![44u8] + json_key(
        "signature"@,
    ) + json_string(c.signature@) + seq![125u8]
}

/// The fingerprint: the first 8 bytes of SHA3-256 over the domain, a zero
/// byte and the certificate JSON, in uppercase hexadecimal.
pub open spec fn fingerprint_of(c: Certificate) -> Seq<char> {
    hex_upper(
        sha3_256(encode_utf8(CERTIFICATE_FINGERPRINT_DOMAIN@) + seq![0u8] + certificate_json(c)).take(
            8,
        ),
    )
}

fn push_json_key(out: &mut Vec<u8>, k: &str)
    ensures
        final(out)@ == old(out)@ + json_key(k@),
{
    push_json_string(out, k);
    out.push(58u8);
    assert(final(out)@ =~= old(out)@ + json_key(k@));
}

impl CertificateSigningPayload {
    /// Validates the exact object that is serialized and signed.
    pub fn validate(&self) -> (r: Result<(), CertificateError>)
        ensures
            r == outcome(payload_error(*self)),
    {
        if self.version != CERTIFICATE_VERSION {
            return Err(CertificateError::InvalidVersion);
        }
        validate_chain(self.chain.as_str())?;
        validate_actor_id(self.actor_id.as_str())?;
        validate_role(self.role.as_str())?;
        validate_zone(self.zone.as_str())?;
        validate_pubkey_hex(self.pubkey.as_str())?;
        validate_issuer(self.issuer.as_str())?;
        validate_validity_window(self.issued_at, self.expires_at)
    }

    fn push_json_head(&self, out: &mut Vec<u8>)
        ensures
            final(out)@ == old(out)@ + payload_json_head(*self),
    {
        let ghost start = out@;
        out.push(123u8);
        push_json_key(out, "version");
        push_dec_bytes(out, self.version as u64);
        out.push(44u8);
        push_json_key(out, "chain");
        push_json_string(out, self.chain.as_str());
        out.push(44u8);
        push_json_key(out, "actor_id");
        push_json_string(out, self.actor_id.as_str());
        out.push(44u8);
        push_json_key(out, "role");
        push_json_string(out, self.role.as_str());
        out.push(44u8);
        assert(out@ =~= start + payload_json_head(*self));
    }

    fn push_json_tail(&self, out: &mut Vec<u8>)
        ensures
            final(out)@ == old(out)@ + payload_json_tail(*self),
    {
        let ghost start = out@;
        push_json_key(out, "zone");
        push_json_string(out, self.zone.as_str());
        out.push(44u8);
        push_json_key(out, "pubkey");
        push_json_string(out, self.pubkey.as_str());
        out.push(44u8);
        push_json_key(out, "issued_at");
        push_dec_bytes(out, self.issued_at);
        out.push(44u8);
        push_json_key(out, "expires_at");
        push_dec_bytes(out, self.expires_at);
        out.push(44u8);
        push_json_key(out, "issuer");
        push_json_string(out, self.issuer.as_str());
        assert(out@ =~= start + payload_json_tail(*self));
    }

    /// The compact JSON serialization of the payload.
    pub fn to_json_bytes(&self) -> (r: Vec<u8>)
        ensures
            r@ == payload_json(*self),
    {
        let mut out: Vec<u8> = Vec::new();
        self.push_json_head(&mut out);
        self.push_json_tail(&mut out);
        out.push(125u8);
        assert(out@ =~= payload_json(*self));
        out
    }
}

impl Certificate {
    /// An unsigned certificate: version 1, issuer and signature empty.
    pub fn new_unsigned(
        chain: String,
        actor_id: String,
        role: String,
        zone: String,
        pubkey: String,
        issued_at: u64,
        expires_at: u64,
    ) -> (r: Self)
        ensures
            r.version == CERTIFICATE_VERSION,
            r.chain == chain,
            r.actor_id == actor_id,
            r.role == role,
            r.zone == zone,
            r.pubkey == pubkey,
            r.issued_at == issued_at,
            r.expires_at == expires_at,
            r.issuer@ == Seq::<char>::empty(),
            r.signature@ == Seq::<char>::empty(),
    {
        Certificate {
            version: CERTIFICATE_VERSION,
            chain,
            actor_id,
            role,
            zone,
            pubkey,
            issued_at,
            expires_at,
            issuer: String::new(),
            signature: String::new(),
        }
    }

    /// The signing payload (everything but the signature).
    pub fn signing_payload(&self) -> (r: CertificateSigningPayload)
        ensures
            r == payload_of(*self),
    {
        CertificateSigningPayload {
            version: self.version,
            chain: self.chain.clone(),
            actor_id: self.actor_id.clone(),
            role: self.role.clone(),
            zone: self.zone.clone(),
            pubkey: self.pubkey.clone(),
            issued_at: self.issued_at,
            expires_at: self.expires_at,
            issuer: self.issuer.clone(),
        }
    }

    /// The JSON bytes of the validated signing payload.
    pub fn signing_payload_bytes(&self) -> (r: Result<Vec<u8>, CertificateError>)
        ensures
            match payload_error(payload_of(*self)) {
                Some(e) => r == Err::<Vec<u8>, CertificateError>(e),
                None => r is Ok && r->Ok_0@ == payload_json(payload_of(*self)),
            },
    {
        let payload = self.signing_payload();
        payload.validate()?;
        Ok(payload.to_json_bytes())
    }

    /// A copy with the signature cleared.
    pub fn unsigned_view(&self) -> (r: Self)
        ensures
            r == (Certificate { signature: r.signature, ..*self }),
            r.signature@ == Seq::<char>::empty(),
    {
        Certificate {
            version: self.version,
            chain: self.chain.clone(),
            actor_id: self.actor_id.clone(),
            role: self.role.clone(),
            zone: self.zone.clone(),
            pubkey: self.pubkey.clone(),
            issued_at: self.issued_at,
            expires_at: self.expires_at,
            issuer: self.issuer.clone(),
            signature: String::new(),
        }
    }

    /// Whether the signature is not blank.
    pub fn is_signed(&self) -> (r: bool)
        ensures
            r == (trim(self.signature@).len() != 0),
    {
        let cs = chars_of(self.signature.as_str());
        !is_blank(&cs)
    }

    /// Whether the issuer is not blank.
    pub fn has_issuer(&self) -> (r: bool)
        ensures
            r == (trim(self.issuer@).len() != 0),
    {
        let cs = chars_of(self.issuer.as_str());
        !is_blank(&cs)
    }

    /// The decoded public key.
    pub fn public_key_bytes(&self) -> (r: Result<Vec<u8>, CertificateError>)
        ensures
            match pubkey_error(self.pubkey@) {
                Some(e) => r == Err::<Vec<u8>, CertificateError>(e),
                None => r is Ok && hex_decode(self.pubkey@) == Some(r->Ok_0@),
            },
    {
        validate_pubkey_hex(self.pubkey.as_str())?;
        let cs = chars_of(self.pubkey.as_str());
        proof {
            lemma_hex_text_len(self.pubkey@);
        }
        match decode_hex(&cs) {
            Some(bytes) => Ok(bytes),
            None => Err(CertificateError::InvalidPublicKeyHex),
        }
    }

    /// The decoded signature.
    pub fn signature_bytes(&self) -> (r: Result<Vec<u8>, CertificateError>)
        ensures
            match signature_error(self.signature@) {
                Some(e) => r == Err::<Vec<u8>, CertificateError>(e),
                None => r is Ok && hex_decode(self.signature@) == Some(r->Ok_0@),
            },
    {
        validate_signature_hex(self.signature.as_str())?;
        let cs = chars_of(self.signature.as_str());
        proof {
            lemma_hex_text_len(self.signature@);
        }
        match decode_hex(&cs) {
            Some(bytes) => Ok(bytes),
            None => Err(CertificateError::InvalidSignatureHex),
        }
    }

    /// The compact JSON serialization of the whole certificate.
    pub fn to_json_bytes(&self) -> (r: Vec<u8>)
        ensures
            r@ == certificate_json(*self),
    {
        let payload = self.signing_payload();
        let mut out: Vec<u8> = Vec::new();
        payload.push_json_head(&mut out);
        payload.push_json_tail(&mut out);
        out.push(44u8);
        push_json_key(&mut out, "signature");
        push_json_string(&mut out, self.signature.as_str());
        out.push(125u8);
        assert(out@ =~= certificate_json(*self));
        out
    }

    /// Operator-facing fingerprint of the full certificate (16 uppercase
    /// hexadecimal characters).
    pub fn fingerprint(&self) -> (r: Result<String, CertificateError>)
        ensures
            r is Ok && r->Ok_0@ == fingerprint_of(*self),
    {
        let body = self.to_json_bytes();
        let mut m: Vec<u8> = Vec::new();
        push_str_bytes(&mut m, CERTIFICATE_FINGERPRINT_DOMAIN);
        m.push(0u8);
        push_bytes(&mut m, body.as_slice());
        let digest = sha3_256_digest(m.as_slice());
        let mut head: Vec<u8> = Vec::new();
        let mut i: usize = 0;
        while i < 8
            invariant
                i <= 8,
                digest@.len() == 32,
                head@ == digest@.take(i as int),
            decreases 8 - i,
        {
            head.push(digest[i]);
            i += 1;
            assert(head@ =~= digest@.take(i as int));
        }
        let mut out: Vec<char> = Vec::new();
        push_hex_upper(&mut out, head.as_slice());
        assert(m@ =~= encode_utf8(CERTIFICATE_FINGERPRINT_DOMAIN@) + seq![0u8] + certificate_json(*self));
        assert(out@ =~= fingerprint_of(*self));
        Ok(string_from_chars(&out))
    }

    /// Lifecycle state at a UNIX timestamp.
    pub fn validity_state_at(&self, unix_time: u64) -> (r: CertificateValidityState)
        ensures
            r == if unix_time < self.issued_at {
                CertificateValidityState::NotYetValid
            } else if unix_time >= self.expires_at {
                CertificateValidityState::Expired
            } else {
                CertificateValidityState::Valid
            },
    {
        if self.is_not_yet_valid_at(unix_time) {
            CertificateValidityState::NotYetValid
        } else if self.is_expired_at(unix_time) {
            CertificateValidityState::Expired
        } else {
            CertificateValidityState::Valid
        }
    }

    /// Validates the fields required before signing (issuer and signature
    /// may be empty).
    pub fn validate_unsigned(&self) -> (r: Result<(), CertificateError>)
        ensures
            r == outcome(unsigned_error(*self)),
    {
        if self.version != CERTIFICATE_VERSION {
            return Err(CertificateError::InvalidVersion);
        }
        validate_chain(self.chain.as_str())?;
        validate_actor_id(self.actor_id.as_str())?;
        validate_role(self.role.as_str())?;
        validate_zone(self.zone.as_str())?;
        validate_pubkey_hex(self.pubkey.as_str())?;
        validate_validity_window(self.issued_at, self.expires_at)?;
        Ok(())
    }

    /// Validates an issued certificate: unsigned fields, issuer, signature.
    pub fn validate_signed(&self) -> (r: Result<(), CertificateError>)
        ensures
            r == outcome(signed_error(*self)),
    {
        self.validate_unsigned()?;
        validate_issuer(self.issuer.as_str())?;
        validate_signature_hex(self.signature.as_str())?;
        Ok(())
    }

    /// `issued_at <= t < expires_at`.
    pub fn is_valid_at(&self, unix_time: u64) -> (r: bool)
        ensures
            r == valid_at(*self, unix_time),
    {
        unix_time >= self.issued_at && unix_time < self.expires_at
    }

    /// `t >= expires_at`.
    pub fn is_expired_at(&self, unix_time: u64) -> (r: bool)
        ensures
            r == expired_at(*self, unix_time),
    {
        unix_time >= self.expires_at
    }

    /// `t < issued_at`.
    pub fn is_not_yet_valid_at(&self, unix_time: u64) -> (r: bool)
        ensures
            r == not_yet_valid_at(*self, unix_time),
    {
        unix_time < self.issued_at
    }

    /// `is_valid_at` for the current system time.
    pub fn is_currently_valid(&self) -> (r: Result<bool, CertificateError>)
        ensures
            r is Err ==> r == Err::<bool, CertificateError>(CertificateError::TimeError),
            r is Ok ==> exists|now: u64|
                r->Ok_0 == #[trigger] valid_at(*self, now),
    {
        let now = current_unix_time()?;
        Ok(self.is_valid_at(now))
    }

    /// `is_expired_at` for the current system time.
    pub fn is_currently_expired(&self) -> (r: Result<bool, CertificateError>)
        ensures
            r is Err ==> r == Err::<bool, CertificateError>(CertificateError::TimeError),
            r is Ok ==> exists|now: u64| r->Ok_0 == #[trigger] expired_at(*self, now),
    {
        let now = current_unix_time()?;
        Ok(self.is_expired_at(now))
    }

    /// `is_not_yet_valid_at` for the current system time.
    pub fn is_currently_not_yet_valid(&self) -> (r: Result<bool, CertificateError>)
        ensures
            r is Err ==> r == Err::<bool, CertificateError>(CertificateError::TimeError),
            r is Ok ==> exists|now: u64| r->Ok_0 == #[trigger] not_yet_valid_at(*self, now),
    {
        let now = current_unix_time()?;
        Ok(self.is_not_yet_valid_at(now))
    }
}

impl Default for Certificate {
    fn default() -> (r: Self)
        ensures
            r.version == CERTIFICATE_VERSION,
            r.chain@ == Seq::<char>::empty(),
            r.actor_id@ == Seq::<char>::empty(),
            r.role@ == Seq::<char>::empty(),
            r.zone@ == Seq::<char>::empty(),
            r.pubkey@ == Seq::<char>::empty(),
            r.issued_at == 0,
            r.expires_at == 0,
            r.issuer@ == Seq::<char>::empty(),
            r.signature@ == Seq::<char>::empty(),
    {
        Certificate::new_unsigned(String::new(), String::new(), String::new(), String::new(), String::new(), 0, 0)
    }
}

/// The current UNIX time in seconds (`TimeError` before the epoch).
fn current_unix_time() -> (r: Result<u64, CertificateError>)
    ensures
        r is Err ==> r == Err::<u64, CertificateError>(CertificateError::TimeError),
{
    match unix_time_seconds() {
        Some(t) => Ok(t),
        None => Err(CertificateError::TimeError),
    }
}

} // verus!
