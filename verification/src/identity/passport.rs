//! Node identity passports: actor metadata with its certificate, validation
//! of every field and short deterministic fingerprints.

use vstd::prelude::*;
use vstd::utf8::encode_utf8;

use crate::crypto::sha3_256;
use crate::crypto::sha3_256_digest;
use crate::text::all_chars;
use crate::text::all_ident;
use crate::text::all_label;
use crate::text::be_u64;
use crate::text::byte_len;
use crate::text::byte_len_of;
use crate::text::chars_of;
use crate::text::chars_start_with;
use crate::text::has_outer_ws;
use crate::text::hex_upper;
use crate::text::hex_upper_prefix;
use crate::text::is_blank;
use crate::text::is_ident_char;
use crate::text::is_label_char;
use crate::text::push_be_u64;
use crate::text::push_str;
use crate::text::push_str_bytes;
use crate::text::starts_with;
use crate::text::str_to_string;
use crate::text::string_from_chars;
use crate::text::trim;

verus! {

/// Current passport format version.
pub const PASSPORT_VERSION: u8 = 1;

pub const MAX_ACTOR_ID_LEN: usize = 128;

pub const MAX_ROLE_LEN: usize = 32;

pub const MAX_ZONE_LEN: usize = 32;

/// Maximum embedded certificate length, in bytes.
pub const MAX_CERTIFICATE_LEN: usize = 65536;

/// Domain separator of passport fingerprints.
pub const PASSPORT_FINGERPRINT_DOMAIN: &'static str = "AOXC/IDENTITY/PASSPORT/FINGERPRINT/V1";

/// Domain separator of certificate-string fingerprints.
pub const PASSPORT_CERTIFICATE_FINGERPRINT_DOMAIN: &'static str =
    "AOXC/IDENTITY/PASSPORT/CERTIFICATE_FINGERPRINT/V1";

/// Lifecycle state of a passport at a timestamp.
#[derive(Debug, Clone, Copy, PartialEq, Eq, Structural)]
pub enum PassportValidityState {
    NotYetValid,
    Valid,
    Expired,
}

/// Passport validation and serialization errors.
#[derive(Debug, Clone, PartialEq, Eq)]
#[non_exhaustive]
pub enum PassportError {
    InvalidVersion,
    EmptyActorId,
    InvalidActorId,
    EmptyRole,
    InvalidRole,
    EmptyZone,
    InvalidZone,
    EmptyCertificate,
    InvalidCertificate,
    InvalidIssuedAt,
    InvalidExpiresAt,
    InvalidValidityWindow,
    SerializationFailed(String),
    ParseFailed(String),
}

impl PassportError {
    pub open spec fn code_text(&self) -> Seq<char> {
        match self {
            PassportError::InvalidVersion => "PASSPORT_INVALID_VERSION"@,
            PassportError::EmptyActorId => "PASSPORT_EMPTY_ACTOR_ID"@,
            PassportError::InvalidActorId => "PASSPORT_INVALID_ACTOR_ID"@,
            PassportError::EmptyRole => "PASSPORT_EMPTY_ROLE"@,
            PassportError::InvalidRole => "PASSPORT_INVALID_ROLE"@,
            PassportError::EmptyZone => "PASSPORT_EMPTY_ZONE"@,
            PassportError::InvalidZone => "PASSPORT_INVALID_ZONE"@,
            PassportError::EmptyCertificate => "PASSPORT_EMPTY_CERTIFICATE"@,
            PassportError::InvalidCertificate => "PASSPORT_INVALID_CERTIFICATE"@,
            PassportError::InvalidIssuedAt => "PASSPORT_INVALID_ISSUED_AT"@,
            PassportError::InvalidExpiresAt => "PASSPORT_INVALID_EXPIRES_AT"@,
            PassportError::InvalidValidityWindow => "PASSPORT_INVALID_VALIDITY_WINDOW"@,
            PassportError::SerializationFailed(_) => "PASSPORT_SERIALIZATION_FAILED"@,
            PassportError::ParseFailed(_) => "PASSPORT_PARSE_FAILED"@,
        }
    }

    /// Stable symbolic error code for logs and telemetry.
    pub fn code(&self) -> (r: &'static str)
        ensures
            r@ == self.code_text(),
    {
        match self {
            PassportError::InvalidVersion => "PASSPORT_INVALID_VERSION",
            PassportError::EmptyActorId => "PASSPORT_EMPTY_ACTOR_ID",
            PassportError::InvalidActorId => "PASSPORT_INVALID_ACTOR_ID",
            PassportError::EmptyRole => "PASSPORT_EMPTY_ROLE",
            PassportError::InvalidRole => "PASSPORT_INVALID_ROLE",
            PassportError::EmptyZone => "PASSPORT_EMPTY_ZONE",
            PassportError::InvalidZone => "PASSPORT_INVALID_ZONE",
            PassportError::EmptyCertificate => "PASSPORT_EMPTY_CERTIFICATE",
            PassportError::InvalidCertificate => "PASSPORT_INVALID_CERTIFICATE",
            PassportError::InvalidIssuedAt => "PASSPORT_INVALID_ISSUED_AT",
            PassportError::InvalidExpiresAt => "PASSPORT_INVALID_EXPIRES_AT",
            PassportError::InvalidValidityWindow => "PASSPORT_INVALID_VALIDITY_WINDOW",
            PassportError::SerializationFailed(_) => "PASSPORT_SERIALIZATION_FAILED",
            PassportError::ParseFailed(_) => "PASSPORT_PARSE_FAILED",
        }
    }

    pub open spec fn message_text(&self) -> Seq<char> {
        match self {
            PassportError::InvalidVersion => "passport validation failed: unsupported version"@,
            PassportError::EmptyActorId => "passport validation failed: actor_id must not be empty"@,
            PassportError::InvalidActorId => "passport validation failed: actor_id format is invalid"@,
            PassportError::EmptyRole => "passport validation failed: role must not be empty"@,
            PassportError::InvalidRole => "passport validation failed: role format is invalid"@,
            PassportError::EmptyZone => "passport validation failed: zone must not be empty"@,
            PassportError::InvalidZone => "passport validation failed: zone format is invalid"@,
            PassportError::EmptyCertificate => "passport validation failed: certificate must not be empty"@,
            PassportError::InvalidCertificate => "passport validation failed: certificate format is invalid"@,
            PassportError::InvalidIssuedAt => "passport validation failed: issued_at is invalid"@,
            PassportError::InvalidExpiresAt => "passport validation failed: expires_at is invalid"@,
            PassportError::InvalidValidityWindow => "passport validation failed: expires_at must be greater than issued_at"@,
            PassportError::SerializationFailed(e) => "passport serialization failed: "@ + e@,
            PassportError::ParseFailed(e) => "passport parsing failed: "@ + e@,
        }
    }

    /// Human-readable description of the error.
    pub fn message(&self) -> (r: String)
        ensures
            r@ == self.message_text(),
    {
        match self {
            PassportError::InvalidVersion => str_to_string("passport validation failed: unsupported version"),
            PassportError::EmptyActorId => str_to_string("passport validation failed: actor_id must not be empty"),
            PassportError::InvalidActorId => str_to_string("passport validation failed: actor_id format is invalid"),
            PassportError::EmptyRole => str_to_string("passport validation failed: role must not be empty"),
            PassportError::InvalidRole => str_to_string("passport validation failed: role format is invalid"),
            PassportError::EmptyZone => str_to_string("passport validation failed: zone must not be empty"),
            PassportError::InvalidZone => str_to_string("passport validation failed: zone format is invalid"),
            PassportError::EmptyCertificate => str_to_string("passport validation failed: certificate must not be empty"),
            PassportError::InvalidCertificate => str_to_string("passport validation failed: certificate format is invalid"),
            PassportError::InvalidIssuedAt => str_to_string("passport validation failed: issued_at is invalid"),
            PassportError::InvalidExpiresAt => str_to_string("passport validation failed: expires_at is invalid"),
            PassportError::InvalidValidityWindow => str_to_string("passport validation failed: expires_at must be greater than issued_at"),
            PassportError::SerializationFailed(e) => {
                let mut out: Vec<char> = Vec::new();
                push_str(&mut out, "passport serialization failed: ");
                push_str(&mut out, e.as_str());
                string_from_chars(&out)
            },
            PassportError::ParseFailed(e) => {
                let mut out: Vec<char> = Vec::new();
                push_str(&mut out, "passport parsing failed: ");
                push_str(&mut out, e.as_str());
                string_from_chars(&out)
            },
        }
    }
}

/// Node identity passport.
#[derive(Debug, Clone, PartialEq, Eq)]
pub struct Passport {
    pub version: u8,
    pub actor_id: String,
    pub role: String,
    pub zone: String,
    pub certificate: String,
    pub issued_at: u64,
    pub expires_at: u64,
}

pub open spec fn outcome(e: Option<PassportError>) -> Result<(), PassportError> {
    match e {
        Some(e) => Err(e),
        None => Ok(()),
    }
}

/// The characters a text field accepts: label characters (`[A-Za-z0-9_-]`)
/// or identifier characters (those and `.`).
pub open spec fn allowed_text(s: Seq<char>, label: bool) -> bool {
    if label {
        all_chars(s, |c: char| is_label_char(c))
    } else {
        all_chars(s, |c: char| is_ident_char(c))
    }
}

/// The rule shared by the text fields: blank text reports `empty`; outer
/// whitespace, more than `max_len` bytes or a character outside the field's
/// alphabet reports `invalid`.
pub open spec fn text_error(
    s: Seq<char>,
    max_len: nat,
    label: bool,
    empty: PassportError,
    invalid: PassportError,
) -> Option<PassportError> {
    if trim(s).len() == 0 {
        Some(empty)
    } else if trim(s) != s || byte_len(s) > max_len || !allowed_text(s, label) {
        Some(invalid)
    } else {
        None
    }
}

/// An actor id is canonical text of identifier characters starting `AOXC-`.
pub open spec fn actor_id_error(s: Seq<char>) -> Option<PassportError> {
    if text_error(
        s,
        MAX_ACTOR_ID_LEN as nat,
        false,
        PassportError::EmptyActorId,
        PassportError::InvalidActorId,
    ) is Some {
        text_error(
            s,
            MAX_ACTOR_ID_LEN as nat,
            false,
            PassportError::EmptyActorId,
            PassportError::InvalidActorId,
        )
    } else if !starts_with(s, "AOXC-"@) {
        Some(PassportError::InvalidActorId)
    } else {
        None
    }
}

pub open spec fn role_error(s: Seq<char>) -> Option<PassportError> {
    text_error(
        s,
        MAX_ROLE_LEN as nat,
        true,
        PassportError::EmptyRole,
        PassportError::InvalidRole,
    )
}

pub open spec fn zone_error(s: Seq<char>) -> Option<PassportError> {
    text_error(
        s,
        MAX_ZONE_LEN as nat,
        true,
        PassportError::EmptyZone,
        PassportError::InvalidZone,
    )
}

/// The certificate is any non-blank text without outer whitespace of at most
/// `MAX_CERTIFICATE_LEN` bytes.
pub open spec fn certificate_error(s: Seq<char>) -> Option<PassportError> {
    if trim(s).len() == 0 {
        Some(PassportError::EmptyCertificate)
    } else if trim(s) != s || byte_len(s) > MAX_CERTIFICATE_LEN {
        Some(PassportError::InvalidCertificate)
    } else {
        None
    }
}

pub open spec fn window_error(issued_at: u64, expires_at: u64) -> Option<PassportError> {
    if issued_at == 0 {
        Some(PassportError::InvalidIssuedAt)
    } else if expires_at == 0 {
        Some(PassportError::InvalidExpiresAt)
    } else if expires_at <= issued_at {
        Some(PassportError::InvalidValidityWindow)
    } else {
        None
    }
}

/// The first rule a passport breaks, in field order.
pub open spec fn passport_error(p: Passport) -> Option<PassportError> {
    if p.version != PASSPORT_VERSION {
        Some(PassportError::InvalidVersion)
    } else if actor_id_error(p.actor_id@) is Some {
        actor_id_error(p.actor_id@)
    } else if role_error(p.role@) is Some {
        role_error(p.role@)
    } else if zone_error(p.zone@) is Some {
        zone_error(p.zone@)
    } else if certificate_error(p.certificate@) is Some {
        certificate_error(p.certificate@)
    } else {
        window_error(p.issued_at, p.expires_at)
    }
}

/// The bytes hashed for a passport fingerprint: the domain, then each field,
/// separated by zero bytes (timestamps big-endian).
pub open spec fn fingerprint_message(p: Passport) -> Seq<u8> {
    encode_utf8(PASSPORT_FINGERPRINT_DOMAIN@) + seq![0u8, p.version, 0u8] + encode_utf8(p.actor_id@)
        + seq![0u8] + encode_utf8(p.role@) + seq![0u8] + encode_utf8(p.zone@) + seq![0u8]
        + encode_utf8(p.certificate@) + seq![0u8] + be_u64(p.issued_at) + seq![0u8] + be_u64(
        p.expires_at,
    )
}

/// The first 8 bytes of the SHA3-256 digest, in uppercase hexadecimal.
pub open spec fn short_digest_hex(message: Seq<u8>) -> Seq<char> {
    hex_upper(sha3_256(message).take(8))
}

pub open spec fn certificate_fingerprint_message(certificate: Seq<char>) -> Seq<u8> {
    encode_utf8(PASSPORT_CERTIFICATE_FINGERPRINT_DOMAIN@) + seq![0u8] + encode_utf8(certificate)
}

fn check_text(
    value: &str,
    max_len: usize,
    label: bool,
    empty: PassportError,
    invalid: PassportError,
) -> (r: Result<(), PassportError>)
    ensures
        r == outcome(text_error(value@, max_len as nat, label, empty, invalid)),
{
    let cs = chars_of(value);
    if is_blank(&cs) {
        return Err(empty);
    }
    if has_outer_ws(&cs) || byte_len_of(&cs) > max_len as u128 {
        return Err(invalid);
    }
    let ok = if label {
        all_label(&cs)
    } else {
        all_ident(&cs)
    };
    if !ok {
        return Err(invalid);
    }
    Ok(())
}

fn validate_actor_id(value: &str) -> (r: Result<(), PassportError>)
    ensures
        r == outcome(actor_id_error(value@)),
{
    if let Err(e) = check_text(
        value,
        MAX_ACTOR_ID_LEN,
        false,
        PassportError::EmptyActorId,
        PassportError::InvalidActorId,
    ) {
        return Err(e);
    }
    let cs = chars_of(value);
    let prefix = chars_of("AOXC-");
    if !chars_start_with(&cs, &prefix) {
        return Err(PassportError::InvalidActorId);
    }
    Ok(())
}

fn validate_certificate(value: &str) -> (r: Result<(), PassportError>)
    ensures
        r == outcome(certificate_error(value@)),
{
    let cs = chars_of(value);
    if is_blank(&cs) {
        return Err(PassportError::EmptyCertificate);
    }
    if has_outer_ws(&cs) || byte_len_of(&cs) > MAX_CERTIFICATE_LEN as u128 {
        return Err(PassportError::InvalidCertificate);
    }
    Ok(())
}

fn validate_validity_window(issued_at: u64, expires_at: u64) -> (r: Result<(), PassportError>)
    ensures
        r == outcome(window_error(issued_at, expires_at)),
{
    if issued_at == 0 {
        return Err(PassportError::InvalidIssuedAt);
    }
    if expires_at == 0 {
        return Err(PassportError::InvalidExpiresAt);
    }
    if expires_at <= issued_at {
        return Err(PassportError::InvalidValidityWindow);
    }
    Ok(())
}

impl Passport {
    /// A passport of the current version with the given fields (not
    /// validated).
    pub fn new(
        actor_id: String,
        role: String,
        zone: String,
        certificate: String,
        issued_at: u64,
        expires_at: u64,
    ) -> (r: Self)
        ensures
            r == (Passport {
                version: PASSPORT_VERSION,
                actor_id,
                role,
                zone,
                certificate,
                issued_at,
                expires_at,
            }),
    {
        Passport { version: PASSPORT_VERSION, actor_id, role, zone, certificate, issued_at, expires_at }
    }

    /// Validates every field, reporting the first rule broken.
    pub fn validate(&self) -> (r: Result<(), PassportError>)
        ensures
            r == outcome(passport_error(*self)),
    {
        if self.version != PASSPORT_VERSION {
            return Err(PassportError::InvalidVersion);
        }
        if let Err(e) = validate_actor_id(self.actor_id.as_str()) {
            return Err(e);
        }
        if let Err(e) = check_text(
            self.role.as_str(),
            MAX_ROLE_LEN,
            true,
            PassportError::EmptyRole,
            PassportError::InvalidRole,
        ) {
            return Err(e);
        }
        if let Err(e) = check_text(
            self.zone.as_str(),
            MAX_ZONE_LEN,
            true,
            PassportError::EmptyZone,
            PassportError::InvalidZone,
        ) {
            return Err(e);
        }
        if let Err(e) = validate_certificate(self.certificate.as_str()) {
            return Err(e);
        }
        validate_validity_window(self.issued_at, self.expires_at)
    }

    /// Expired once `now >= expires_at`.
    pub fn is_expired(&self, now: u64) -> (r: bool)
        ensures
            r == (now >= self.expires_at),
    {
        now >= self.expires_at
    }

    /// Not yet valid while `now < issued_at`.
    pub fn is_not_yet_valid_at(&self, now: u64) -> (r: bool)
        ensures
            r == (now < self.issued_at),
    {
        now < self.issued_at
    }

    /// Valid on `issued_at <= now < expires_at`.
    pub fn is_valid_at(&self, now: u64) -> (r: bool)
        ensures
            r == (self.issued_at <= now && now < self.expires_at),
    {
        now >= self.issued_at && now < self.expires_at
    }

    /// Lifecycle state at `now`.
    pub fn validity_state_at(&self, now: u64) -> (r: PassportValidityState)
        ensures
            r == if now < self.issued_at {
                PassportValidityState::NotYetValid
            } else if now >= self.expires_at {
                PassportValidityState::Expired
            } else {
                PassportValidityState::Valid
            },
    {
        if self.is_not_yet_valid_at(now) {
            PassportValidityState::NotYetValid
        } else if self.is_expired(now) {
            PassportValidityState::Expired
        } else {
            PassportValidityState::Valid
        }
    }

    /// Deterministic fingerprint of the whole passport (16 uppercase
    /// hexadecimal characters).
    pub fn fingerprint(&self) -> (r: String)
        ensures
            r@ == short_digest_hex(fingerprint_message(*self)),
    {
        let mut m: Vec<u8> = Vec::new();
        push_str_bytes(&mut m, PASSPORT_FINGERPRINT_DOMAIN);
        m.push(0u8);
        m.push(self.version);
        m.push(0u8);
        push_str_bytes(&mut m, self.actor_id.as_str());
        m.push(0u8);
        push_str_bytes(&mut m, self.role.as_str());
        m.push(0u8);
        push_str_bytes(&mut m, self.zone.as_str());
        m.push(0u8);
        push_str_bytes(&mut m, self.certificate.as_str());
        m.push(0u8);
        push_be_u64(&mut m, self.issued_at);
        m.push(0u8);
        push_be_u64(&mut m, self.expires_at);
        assert(m@ =~= fingerprint_message(*self));
        let digest = sha3_256_digest(m.as_slice());
        hex_upper_prefix(&digest, 8)
    }

    /// Deterministic fingerprint of the embedded certificate text (16
    /// uppercase hexadecimal characters).
    pub fn certificate_fingerprint(&self) -> (r: String)
        ensures
            r@ == short_digest_hex(certificate_fingerprint_message(self.certificate@)),
    {
        let mut m: Vec<u8> = Vec::new();
        push_str_bytes(&mut m, PASSPORT_CERTIFICATE_FINGERPRINT_DOMAIN);
        m.push(0u8);
        push_str_bytes(&mut m, self.certificate.as_str());
        assert(m@ =~= certificate_fingerprint_message(self.certificate@));
        let digest = sha3_256_digest(m.as_slice());
        hex_upper_prefix(&digest, 8)
    }
}

} // verus!
