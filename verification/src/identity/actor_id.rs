//! Actor identifiers: `AOXC-RRR-ZZ-SSSSSSSSSSSSSSSSSSSSSSSS-CC`.
//!
//! The role and zone are normalized to fixed-width uppercase alphanumerics,
//! the serial is derived from the public key and context by fusing a
//! SHA3-256 digest with a SHAKE256 stream, and a two-symbol checksum (from an
//! alphabet without ambiguous glyphs) guards against typos.

use vstd::prelude::*;
use vstd::utf8::encode_utf8;

use crate::crypto::sha3_256;
use crate::crypto::sha3_256_digest;
use crate::crypto::shake256;
use crate::crypto::shake256_read;
use crate::text::all_alnum;
use crate::text::all_chars;
use crate::text::all_hex;
use crate::text::byte_len;
use crate::text::byte_len_of;
use crate::text::chars_eq;
use crate::text::chars_of;
use crate::text::hex_upper;
use crate::text::is_alnum_char;
use crate::text::is_ascii_alnum;
use crate::text::is_ascii_hexdigit;
use crate::text::is_ascii_digit;
use crate::text::is_ascii_lower;
use crate::text::is_ascii_upper;
use crate::text::all_ascii;
use crate::text::lemma_ascii_byte_len;
use crate::text::lemma_hex_upper_chars;
use crate::text::lemma_hex_upper_len;
use crate::text::lemma_trim_empty;
use crate::text::lemma_trim_fixed;
use crate::text::lemma_upper_fixed;
use crate::text::push_bytes;
use crate::text::push_chars;
use crate::text::push_hex_upper;
use crate::text::push_str;
use crate::text::push_str_bytes;
use crate::text::str_to_string;
use crate::text::string_from_chars;
use crate::text::to_upper;
use crate::text::trim;
use crate::text::trim_chars;
use crate::text::upper_char;
use crate::text::upper_chars;
use crate::text::upper_seq;
use crate::text::has_no;
use crate::text::lemma_split_append;
use crate::text::lemma_split_single;
use crate::text::split_at_char;
use crate::text::split_on;

verus! {

/// Canonical actor identifier prefix.
pub const AOXC_PREFIX: &'static str = "AOXC";

/// Domain separator of the serial derivation.
pub const ACTOR_ID_DOMAIN: &'static str = "AOXC/IDENTITY/ACTOR_ID/V1";

/// Domain separator of the checksum derivation.
pub const ACTOR_ID_CHECKSUM_DOMAIN: &'static str = "AOXC/IDENTITY/ACTOR_ID/CHECKSUM/V1";

/// Chain context bound into every derivation.
pub const AOXC_CHAIN_CONTEXT: &'static str = "AOXC/CHAIN/MAINNET";

/// Canonical role width.
pub const ROLE_LEN: usize = 3;

/// Canonical zone width.
pub const ZONE_LEN: usize = 2;

/// Digest bytes used for the visible serial.
pub const SERIAL_BYTES: usize = 12;

/// Number of checksum symbols.
pub const CHECKSUM_LEN: usize = 2;

/// Number of dash-separated components.
pub const PART_COUNT: usize = 5;

/// Serial length in hexadecimal characters.
pub const SERIAL_HEX_LEN: usize = 24;

/// Parsed actor identifier.
#[derive(Debug, Clone, PartialEq, Eq, Hash)]
pub struct ActorIdParts {
    pub prefix: String,
    pub role: String,
    pub zone: String,
    pub serial: String,
    pub checksum: String,
}

/// Actor-id derivation and validation errors.
#[derive(Debug, Clone, PartialEq, Eq, Structural)]
#[non_exhaustive]
pub enum ActorIdError {
    EmptyPublicKey,
    EmptyActorId,
    InvalidFormat,
    InvalidPrefix,
    InvalidRole,
    InvalidZone,
    InvalidSerial,
    InvalidChecksum,
    ChecksumMismatch,
    InvalidCharacter,
    DerivationMismatch,
}

impl ActorIdError {
    pub open spec fn code_text(&self) -> Seq<char> {
        match self {
            ActorIdError::EmptyPublicKey => "ACTOR_ID_EMPTY_PUBLIC_KEY"@,
            ActorIdError::EmptyActorId => "ACTOR_ID_EMPTY"@,
            ActorIdError::InvalidFormat => "ACTOR_ID_INVALID_FORMAT"@,
            ActorIdError::InvalidPrefix => "ACTOR_ID_INVALID_PREFIX"@,
            ActorIdError::InvalidRole => "ACTOR_ID_INVALID_ROLE"@,
            ActorIdError::InvalidZone => "ACTOR_ID_INVALID_ZONE"@,
            ActorIdError::InvalidSerial => "ACTOR_ID_INVALID_SERIAL"@,
            ActorIdError::InvalidChecksum => "ACTOR_ID_INVALID_CHECKSUM"@,
            ActorIdError::ChecksumMismatch => "ACTOR_ID_CHECKSUM_MISMATCH"@,
            ActorIdError::InvalidCharacter => "ACTOR_ID_INVALID_CHARACTER"@,
            ActorIdError::DerivationMismatch => "ACTOR_ID_DERIVATION_MISMATCH"@,
        }
    }

    /// Stable symbolic error code.
    pub fn code(&self) -> (r: &'static str)
        ensures
            r@ == self.code_text(),
    {
        match self {
            ActorIdError::EmptyPublicKey => "ACTOR_ID_EMPTY_PUBLIC_KEY",
            ActorIdError::EmptyActorId => "ACTOR_ID_EMPTY",
            ActorIdError::InvalidFormat => "ACTOR_ID_INVALID_FORMAT",
            ActorIdError::InvalidPrefix => "ACTOR_ID_INVALID_PREFIX",
            ActorIdError::InvalidRole => "ACTOR_ID_INVALID_ROLE",
            ActorIdError::InvalidZone => "ACTOR_ID_INVALID_ZONE",
            ActorIdError::InvalidSerial => "ACTOR_ID_INVALID_SERIAL",
            ActorIdError::InvalidChecksum => "ACTOR_ID_INVALID_CHECKSUM",
            ActorIdError::ChecksumMismatch => "ACTOR_ID_CHECKSUM_MISMATCH",
            ActorIdError::InvalidCharacter => "ACTOR_ID_INVALID_CHARACTER",
            ActorIdError::DerivationMismatch => "ACTOR_ID_DERIVATION_MISMATCH",
        }
    }

    pub open spec fn message_text(&self) -> Seq<char> {
        match self {
            ActorIdError::EmptyPublicKey => "actor-id generation failed: public key must not be empty"@,
            ActorIdError::EmptyActorId => "actor-id validation failed: actor id must not be empty"@,
            ActorIdError::InvalidFormat => "actor-id validation failed: actor id format is invalid"@,
            ActorIdError::InvalidPrefix => "actor-id validation failed: prefix is invalid"@,
            ActorIdError::InvalidRole => "actor-id validation failed: role component is invalid"@,
            ActorIdError::InvalidZone => "actor-id validation failed: zone component is invalid"@,
            ActorIdError::InvalidSerial => "actor-id validation failed: serial component is invalid"@,
            ActorIdError::InvalidChecksum => "actor-id validation failed: checksum component is invalid"@,
            ActorIdError::ChecksumMismatch => "actor-id validation failed: checksum mismatch detected"@,
            ActorIdError::InvalidCharacter => "actor-id validation failed: unsupported character detected"@,
            ActorIdError::DerivationMismatch => "actor-id validation failed: derived actor id does not match expected value"@,
        }
    }

    /// Human-readable description of the error.
    pub fn message(&self) -> (r: String)
        ensures
            r@ == self.message_text(),
    {
        match self {
            ActorIdError::EmptyPublicKey => str_to_string("actor-id generation failed: public key must not be empty"),
            ActorIdError::EmptyActorId => str_to_string("actor-id validation failed: actor id must not be empty"),
            ActorIdError::InvalidFormat => str_to_string("actor-id validation failed: actor id format is invalid"),
            ActorIdError::InvalidPrefix => str_to_string("actor-id validation failed: prefix is invalid"),
            ActorIdError::InvalidRole => str_to_string("actor-id validation failed: role component is invalid"),
            ActorIdError::InvalidZone => str_to_string("actor-id validation failed: zone component is invalid"),
            ActorIdError::InvalidSerial => str_to_string("actor-id validation failed: serial component is invalid"),
            ActorIdError::InvalidChecksum => str_to_string("actor-id validation failed: checksum component is invalid"),
            ActorIdError::ChecksumMismatch => str_to_string("actor-id validation failed: checksum mismatch detected"),
            ActorIdError::InvalidCharacter => str_to_string("actor-id validation failed: unsupported character detected"),
            ActorIdError::DerivationMismatch => str_to_string("actor-id validation failed: derived actor id does not match expected value"),
        }
    }
}

// ---------------------------------------------------------------------------
// Model
// ---------------------------------------------------------------------------

/// The ASCII alphanumeric characters of `s`, in order.
pub open spec fn keep_alnum(s: Seq<char>) -> Seq<char>
    decreases s.len(),
{
    if s.len() == 0 {
        seq![]
    } else if is_ascii_alnum(s.last()) {
        keep_alnum(s.drop_last()).push(s.last())
    } else {
        keep_alnum(s.drop_last())
    }
}

/// Fixed-width normalization: uppercase, keep ASCII alphanumerics, cut to
/// `len`, pad with `X`; `None` when nothing is kept.
pub open spec fn normalized(value: Seq<char>, len: nat) -> Option<Seq<char>> {
    let kept = keep_alnum(upper_seq(value));
    let cut = if kept.len() > len {
        kept.take(len as int)
    } else {
        kept
    };
    if cut.len() == 0 {
        None
    } else {
        Some(cut + Seq::new((len - cut.len()) as nat, |i: int| 'X'))
    }
}

/// Message hashed into the serial.
pub open spec fn serial_message(pubkey: Seq<u8>, role: Seq<char>, zone: Seq<char>) -> Seq<u8> {
    encode_utf8(ACTOR_ID_DOMAIN@) + seq![0u8] + encode_utf8(AOXC_CHAIN_CONTEXT@) + seq![0u8]
        + encode_utf8(role) + seq![0u8] + encode_utf8(zone) + seq![0u8] + seq![
        (pubkey.len() % 256) as u8,
    ] + seq![0u8] + pubkey
}

/// Serial bytes: the SHAKE256 stream XORed with the SHA3-256 digest.
pub open spec fn serial_bytes(pubkey: Seq<u8>, role: Seq<char>, zone: Seq<char>) -> Seq<u8> {
    let m = serial_message(pubkey, role, zone);
    let a = shake256(m, SERIAL_BYTES as nat);
    let b = sha3_256(m);
    Seq::new(SERIAL_BYTES as nat, |i: int| a[i] ^ b[i])
}

/// The visible serial: uppercase hexadecimal of the serial bytes.
pub open spec fn serial_of(pubkey: Seq<u8>, role: Seq<char>, zone: Seq<char>) -> Seq<char> {
    hex_upper(serial_bytes(pubkey, role, zone))
}

/// Message hashed into the checksum.
pub open spec fn checksum_message(role: Seq<char>, zone: Seq<char>, serial: Seq<char>) -> Seq<u8> {
    encode_utf8(ACTOR_ID_CHECKSUM_DOMAIN@) + seq![0u8] + encode_utf8(AOXC_CHAIN_CONTEXT@) + seq![
        0u8,
    ] + encode_utf8(AOXC_PREFIX@) + seq![0u8] + encode_utf8(role) + seq![0u8] + encode_utf8(zone)
        + seq![0u8] + encode_utf8(serial)
}

/// Symbol `i` of the checksum alphabet `ABCDEFGHJKLMNPQRSTUVWXYZ23456789`.
pub open spec fn checksum_symbol(i: int) -> char {
    if i < 8 {
        ('A' as int + i) as char
    } else if i < 13 {
        ('J' as int + (i - 8)) as char
    } else if i < 24 {
        ('P' as int + (i - 13)) as char
    } else {
        ('2' as int + (i - 24)) as char
    }
}

/// Whether `c` belongs to the checksum alphabet.
pub open spec fn is_checksum_symbol(c: char) -> bool {
    ('A' <= c && c <= 'H') || ('J' <= c && c <= 'N') || ('P' <= c && c <= 'Z') || ('2' <= c && c
        <= '9')
}

/// The two checksum symbols for a role, zone and serial.
pub open spec fn checksum_of(role: Seq<char>, zone: Seq<char>, serial: Seq<char>) -> Seq<char> {
    let h = shake256(checksum_message(role, zone, serial), CHECKSUM_LEN as nat);
    Seq::new(CHECKSUM_LEN as nat, |i: int| checksum_symbol((h[i] % 32) as int))
}

/// `AOXC-role-zone-serial-checksum`.
pub open spec fn assemble(role: Seq<char>, zone: Seq<char>, serial: Seq<char>, checksum: Seq<char>) -> Seq<char> {
    AOXC_PREFIX@ + seq!['-'] + role + seq!['-'] + zone + seq!['-'] + serial + seq!['-'] + checksum
}

/// What `generate_actor_id` yields.
pub open spec fn generated(pubkey: Seq<u8>, role: Seq<char>, zone: Seq<char>) -> Result<Seq<char>, ActorIdError> {
    if pubkey.len() == 0 {
        Err(ActorIdError::EmptyPublicKey)
    } else if normalized(role, ROLE_LEN as nat) is None {
        Err(ActorIdError::InvalidRole)
    } else if normalized(zone, ZONE_LEN as nat) is None {
        Err(ActorIdError::InvalidZone)
    } else {
        let r = normalized(role, ROLE_LEN as nat)->0;
        let z = normalized(zone, ZONE_LEN as nat)->0;
        let s = serial_of(pubkey, r, z);
        Ok(assemble(r, z, s, checksum_of(r, z, s)))
    }
}

pub open spec fn is_alnum_or_dash(c: char) -> bool {
    is_ascii_alnum(c) || c == '-'
}

/// What `parse_actor_id` yields: the five uppercased pieces.
pub open spec fn parsed(s: Seq<char>) -> Result<Seq<Seq<char>>, ActorIdError> {
    let c = trim(s);
    if c.len() == 0 {
        Err(ActorIdError::EmptyActorId)
    } else if !all_chars(c, |ch: char| is_alnum_or_dash(ch)) {
        Err(ActorIdError::InvalidCharacter)
    } else if split_on(c, '-').len() != PART_COUNT {
        Err(ActorIdError::InvalidFormat)
    } else {
        Ok(split_on(c, '-').map_values(|p: Seq<char>| upper_seq(p)))
    }
}

/// The first problem with parsed components, in the order they are checked.
pub open spec fn components_error(p: Seq<Seq<char>>) -> Option<ActorIdError> {
    let (prefix, role, zone, serial, checksum) = (p[0], p[1], p[2], p[3], p[4]);
    if prefix != AOXC_PREFIX@ {
        Some(ActorIdError::InvalidPrefix)
    } else if byte_len(role) != ROLE_LEN || !all_chars(role, |c: char| is_ascii_alnum(c)) {
        Some(ActorIdError::InvalidRole)
    } else if byte_len(zone) != ZONE_LEN || !all_chars(zone, |c: char| is_ascii_alnum(c)) {
        Some(ActorIdError::InvalidZone)
    } else if byte_len(serial) != SERIAL_HEX_LEN || !all_chars(
        serial,
        |c: char| is_ascii_hexdigit(c),
    ) {
        Some(ActorIdError::InvalidSerial)
    } else if byte_len(checksum) != CHECKSUM_LEN || !all_chars(
        checksum,
        |c: char| is_checksum_symbol(c),
    ) {
        Some(ActorIdError::InvalidChecksum)
    } else if checksum != checksum_of(role, zone, serial) {
        Some(ActorIdError::ChecksumMismatch)
    } else {
        None
    }
}

/// The outcome of `validate_actor_id`.
pub open spec fn validation(s: Seq<char>) -> Result<(), ActorIdError> {
    match parsed(s) {
        Err(e) => Err(e),
        Ok(p) => match components_error(p) {
            Some(e) => Err(e),
            None => Ok(()),
        },
    }
}

/// The outcome of `verify_actor_id_binding`.
pub open spec fn binding(s: Seq<char>, pubkey: Seq<u8>, role: Seq<char>, zone: Seq<char>) -> Result<(), ActorIdError> {
    if validation(s) is Err {
        validation(s)
    } else if generated(pubkey, role, zone) is Err {
        Err(generated(pubkey, role, zone)->Err_0)
    } else if upper_seq(trim(s)) != generated(pubkey, role, zone)->Ok_0 {
        Err(ActorIdError::DerivationMismatch)
    } else {
        Ok(())
    }
}

// ---------------------------------------------------------------------------
// Implementation
// ---------------------------------------------------------------------------

/// Generates the canonical actor identifier for a public key, role and zone.
pub fn generate_actor_id(pubkey: &[u8], role: &str, zone: &str) -> (r: Result<String, ActorIdError>)
    ensures
        match r {
            Ok(s) => generated(pubkey@, role@, zone@) == Ok::<Seq<char>, ActorIdError>(s@),
            Err(e) => generated(pubkey@, role@, zone@) == Err::<Seq<char>, ActorIdError>(e),
        },
{
    if pubkey.len() == 0 {
        return Err(ActorIdError::EmptyPublicKey);
    }
    let role = normalize_role(role)?;
    let zone = normalize_zone(zone)?;
    let serial = derive_serial_chars(pubkey, &role, &zone);
    let checksum = derive_checksum_chars(&role, &zone, &serial);
    let mut out: Vec<char> = Vec::new();
    push_str(&mut out, AOXC_PREFIX);
    out.push('-');
    push_chars(&mut out, &role);
    out.push('-');
    push_chars(&mut out, &zone);
    out.push('-');
    push_chars(&mut out, &serial);
    out.push('-');
    push_chars(&mut out, &checksum);
    proof {
        assert(out@ =~= assemble(role@, zone@, serial@, checksum@));
    }
    Ok(string_from_chars(&out))
}

/// Generates an identifier and validates it before handing it out.
pub fn generate_and_validate_actor_id(pubkey: &[u8], role: &str, zone: &str) -> (r: Result<
    String,
    ActorIdError,
>)
    ensures
        match r {
            Ok(s) => generated(pubkey@, role@, zone@) == Ok::<Seq<char>, ActorIdError>(s@),
            Err(e) => generated(pubkey@, role@, zone@) == Err::<Seq<char>, ActorIdError>(e),
        },
{
    let actor_id = generate_actor_id(pubkey, role, zone)?;
    let checked = validate_actor_id(actor_id.as_str());
    proof {
        law_generated_validates(pubkey@, role@, zone@);
    }
    checked?;
    Ok(actor_id)
}

/// Validates an actor identifier: structure, prefix, component formats and
/// checksum.
pub fn validate_actor_id(actor_id: &str) -> (r: Result<(), ActorIdError>)
    ensures
        r == validation(actor_id@),
{
    let parts = parse_actor_id(actor_id)?;
    let prefix = chars_of(parts.prefix.as_str());
    let expected_prefix = chars_of(AOXC_PREFIX);
    if !chars_eq(&prefix, &expected_prefix) {
        return Err(ActorIdError::InvalidPrefix);
    }
    let role = chars_of(parts.role.as_str());
    let zone = chars_of(parts.zone.as_str());
    let serial = chars_of(parts.serial.as_str());
    let checksum = chars_of(parts.checksum.as_str());
    validate_role_component(&role)?;
    validate_zone_component(&zone)?;
    validate_serial_component(&serial)?;
    validate_checksum_component(&checksum)?;
    let expected = derive_checksum_chars(&role, &zone, &serial);
    if !chars_eq(&checksum, &expected) {
        return Err(ActorIdError::ChecksumMismatch);
    }
    Ok(())
}

fn all_alnum_or_dash(s: &[char]) -> (r: bool)
    ensures
        r == all_chars(s@, |ch: char| is_alnum_or_dash(ch)),
{
    let n = s.len();
    let mut i: usize = 0;
    while i < n
        invariant
            n == s@.len(),
            i <= n,
            forall|j: int| 0 <= j < i ==> is_alnum_or_dash(#[trigger] s@[j]),
        decreases n - i,
    {
        if !(is_alnum_char(s[i]) || s[i] == '-') {
            return false;
        }
        i += 1;
    }
    true
}

/// Parses an actor identifier into its five uppercased components (after
/// trimming and character screening).
pub fn parse_actor_id(actor_id: &str) -> (r: Result<ActorIdParts, ActorIdError>)
    ensures
        match r {
            Ok(p) => parsed(actor_id@) matches Ok(q) && p.prefix@ == q[0] && p.role@ == q[1]
                && p.zone@ == q[2] && p.serial@ == q[3] && p.checksum@ == q[4],
            Err(e) => parsed(actor_id@) == Err::<Seq<Seq<char>>, ActorIdError>(e),
        },
{
    let all = chars_of(actor_id);
    let candidate = trim_chars(&all);
    if candidate.len() == 0 {
        return Err(ActorIdError::EmptyActorId);
    }
    if !all_alnum_or_dash(&candidate) {
        return Err(ActorIdError::InvalidCharacter);
    }
    let parts = split_at_char(&candidate, '-');
    if parts.len() != PART_COUNT {
        return Err(ActorIdError::InvalidFormat);
    }
    let ghost views = parts@.map_values(|v: Vec<char>| v@);
    let prefix = upper_chars(&parts[0]);
    let role = upper_chars(&parts[1]);
    let zone = upper_chars(&parts[2]);
    let serial = upper_chars(&parts[3]);
    let checksum = upper_chars(&parts[4]);
    proof {
        assert(views[0] == parts@[0]@);
        assert(views[1] == parts@[1]@);
        assert(views[2] == parts@[2]@);
        assert(views[3] == parts@[3]@);
        assert(views[4] == parts@[4]@);
    }
    Ok(
        ActorIdParts {
            prefix: string_from_chars(&prefix),
            role: string_from_chars(&role),
            zone: string_from_chars(&zone),
            serial: string_from_chars(&serial),
            checksum: string_from_chars(&checksum),
        },
    )
}

/// Checks that an identifier is valid and is exactly the one derived from
/// the given public key, role and zone.
pub fn verify_actor_id_binding(actor_id: &str, pubkey: &[u8], role: &str, zone: &str) -> (r: Result<
    (),
    ActorIdError,
>)
    ensures
        r == binding(actor_id@, pubkey@, role@, zone@),
{
    validate_actor_id(actor_id)?;
    let expected = generate_actor_id(pubkey, role, zone)?;
    let all = chars_of(actor_id);
    let trimmed = trim_chars(&all);
    let upper = upper_chars(&trimmed);
    let expected_chars = chars_of(expected.as_str());
    if !chars_eq(&upper, &expected_chars) {
        return Err(ActorIdError::DerivationMismatch);
    }
    Ok(())
}

fn normalize_role(role: &str) -> (r: Result<Vec<char>, ActorIdError>)
    ensures
        match r {
            Ok(v) => normalized(role@, ROLE_LEN as nat) == Some(v@),
            Err(e) => normalized(role@, ROLE_LEN as nat) is None && e == ActorIdError::InvalidRole,
        },
{
    match normalize_component(role, ROLE_LEN) {
        Some(v) => Ok(v),
        None => Err(ActorIdError::InvalidRole),
    }
}

fn normalize_zone(zone: &str) -> (r: Result<Vec<char>, ActorIdError>)
    ensures
        match r {
            Ok(v) => normalized(zone@, ZONE_LEN as nat) == Some(v@),
            Err(e) => normalized(zone@, ZONE_LEN as nat) is None && e == ActorIdError::InvalidZone,
        },
{
    match normalize_component(zone, ZONE_LEN) {
        Some(v) => Ok(v),
        None => Err(ActorIdError::InvalidZone),
    }
}

/// Fixed-width normalization of a textual component (see `normalized`).
pub fn normalize_component(value: &str, len: usize) -> (r: Option<Vec<char>>)
    ensures
        match r {
            Some(v) => normalized(value@, len as nat) == Some(v@),
            None => normalized(value@, len as nat) is None,
        },
{
    let cs = chars_of(value);
    let ghost up = upper_seq(cs@);
    let mut out: Vec<char> = Vec::new();
    let n = cs.len();
    let mut i: usize = 0;
    proof {
        assert(up.take(0) =~= Seq::<char>::empty());
    }
    while i < n
        invariant
            n == cs@.len(),
            up == upper_seq(cs@),
            i <= n,
            out@ == (if keep_alnum(up.take(i as int)).len() > len {
                keep_alnum(up.take(i as int)).take(len as int)
            } else {
                keep_alnum(up.take(i as int))
            }),
        decreases n - i,
    {
        let c = upper_char(cs[i]);
        proof {
            let t = up.take(i + 1 as int);
            assert(t.drop_last() =~= up.take(i as int));
            assert(t.last() == c);
            let k0 = keep_alnum(up.take(i as int));
            if k0.len() > len {
                assert(k0.push(c).take(len as int) =~= k0.take(len as int));
            } else if k0.len() == len {
                assert(k0.push(c).take(len as int) =~= k0);
            }
        }
        if is_alnum_char(c) && out.len() < len {
            out.push(c);
        }
        i += 1;
    }
    proof {
        assert(up.take(n as int) =~= up);
    }
    if out.len() == 0 {
        return None;
    }
    let ghost cut = out@;
    while out.len() < len
        invariant
            cut.len() <= out@.len() <= len,
            out@ == cut + Seq::new((out@.len() - cut.len()) as nat, |i: int| 'X'),
        decreases len - out@.len(),
    {
        let ghost before = out@;
        out.push('X');
        proof {
            assert(out@ =~= cut + Seq::new((out@.len() - cut.len()) as nat, |i: int| 'X'));
        }
    }
    Some(out)
}

/// Builds the serial message for a public key and normalized context.
fn serial_message_bytes(pubkey: &[u8], role: &[char], zone: &[char]) -> (m: Vec<u8>)
    ensures
        m@ == serial_message(pubkey@, role@, zone@),
{
    let role_s = string_from_chars(role);
    let zone_s = string_from_chars(zone);
    let mut m: Vec<u8> = Vec::new();
    push_str_bytes(&mut m, ACTOR_ID_DOMAIN);
    m.push(0u8);
    push_str_bytes(&mut m, AOXC_CHAIN_CONTEXT);
    m.push(0u8);
    push_str_bytes(&mut m, role_s.as_str());
    m.push(0u8);
    push_str_bytes(&mut m, zone_s.as_str());
    m.push(0u8);
    m.push((pubkey.len() % 256) as u8);
    m.push(0u8);
    push_bytes(&mut m, pubkey);
    proof {
        assert(m@ =~= serial_message(pubkey@, role@, zone@));
    }
    m
}

/// The serial for a public key and normalized role and zone.
fn derive_serial_chars(pubkey: &[u8], role: &[char], zone: &[char]) -> (s: Vec<char>)
    ensures
        s@ == serial_of(pubkey@, role@, zone@),
{
    let m = serial_message_bytes(pubkey, role, zone);
    let digest = sha3_256_digest(m.as_slice());
    let stream = shake256_read(m.as_slice(), SERIAL_BYTES);
    let mut fused: Vec<u8> = Vec::new();
    let mut i: usize = 0;
    while i < SERIAL_BYTES
        invariant
            i <= SERIAL_BYTES,
            stream@.len() == SERIAL_BYTES,
            fused@.len() == i,
            forall|j: int| 0 <= j < i ==> #[trigger] fused@[j] == stream@[j] ^ digest@[j],
        decreases SERIAL_BYTES - i,
    {
        fused.push(stream[i] ^ digest[i]);
        i += 1;
    }
    proof {
        assert(fused@ =~= serial_bytes(pubkey@, role@, zone@));
    }
    let mut out: Vec<char> = Vec::new();
    push_hex_upper(&mut out, fused.as_slice());
    proof {
        assert(out@ =~= serial_of(pubkey@, role@, zone@));
    }
    out
}

/// The uppercase hexadecimal serial of an actor identifier.
pub fn derive_serial(pubkey: &[u8], role: &str, zone: &str) -> (s: String)
    ensures
        s@ == serial_of(pubkey@, role@, zone@),
{
    let r = chars_of(role);
    let z = chars_of(zone);
    string_from_chars(&derive_serial_chars(pubkey, &r, &z))
}

fn checksum_message_bytes(role: &[char], zone: &[char], serial: &[char]) -> (m: Vec<u8>)
    ensures
        m@ == checksum_message(role@, zone@, serial@),
{
    let role_s = string_from_chars(role);
    let zone_s = string_from_chars(zone);
    let serial_s = string_from_chars(serial);
    let mut m: Vec<u8> = Vec::new();
    push_str_bytes(&mut m, ACTOR_ID_CHECKSUM_DOMAIN);
    m.push(0u8);
    push_str_bytes(&mut m, AOXC_CHAIN_CONTEXT);
    m.push(0u8);
    push_str_bytes(&mut m, AOXC_PREFIX);
    m.push(0u8);
    push_str_bytes(&mut m, role_s.as_str());
    m.push(0u8);
    push_str_bytes(&mut m, zone_s.as_str());
    m.push(0u8);
    push_str_bytes(&mut m, serial_s.as_str());
    proof {
        assert(m@ =~= checksum_message(role@, zone@, serial@));
    }
    m
}

fn derive_checksum_chars(role: &[char], zone: &[char], serial: &[char]) -> (c: Vec<char>)
    ensures
        c@ == checksum_of(role@, zone@, serial@),
{
    let m = checksum_message_bytes(role, zone, serial);
    let h = shake256_read(m.as_slice(), CHECKSUM_LEN);
    let out = encode_checksum_chars(h.as_slice());
    proof {
        assert(out@ =~= checksum_of(role@, zone@, serial@));
    }
    out
}

/// The checksum of an actor identifier's role, zone and serial.
pub fn derive_checksum(role: &str, zone: &str, serial: &str) -> (c: String)
    ensures
        c@ == checksum_of(role@, zone@, serial@),
{
    let r = chars_of(role);
    let z = chars_of(zone);
    let s = chars_of(serial);
    string_from_chars(&derive_checksum_chars(&r, &z, &s))
}

fn checksum_char(i: u8) -> (c: char)
    requires
        i < 32,
    ensures
        c == checksum_symbol(i as int),
{
    let b: u8 = if i < 8 {
        65 + i
    } else if i < 13 {
        74 + (i - 8)
    } else if i < 24 {
        80 + (i - 13)
    } else {
        50 + (i - 24)
    };
    b as char
}

fn encode_checksum_chars(bytes: &[u8]) -> (out: Vec<char>)
    ensures
        out@ == Seq::new(bytes@.len(), |i: int| checksum_symbol((bytes@[i] % 32) as int)),
{
    let mut out: Vec<char> = Vec::new();
    let n = bytes.len();
    let mut i: usize = 0;
    while i < n
        invariant
            n == bytes@.len(),
            i <= n,
            out@ =~= Seq::new(i as nat, |j: int| checksum_symbol((bytes@[j] % 32) as int)),
        decreases n - i,
    {
        out.push(checksum_char(bytes[i] % 32));
        i += 1;
    }
    out
}

/// Encodes raw bytes into the checksum alphabet (`byte mod 32`).
pub fn encode_checksum(bytes: &[u8]) -> (s: String)
    ensures
        s@ == Seq::new(bytes@.len(), |i: int| checksum_symbol((bytes@[i] % 32) as int)),
{
    string_from_chars(&encode_checksum_chars(bytes))
}

fn validate_role_component(role: &[char]) -> (r: Result<(), ActorIdError>)
    ensures
        r is Ok <==> (byte_len(role@) == ROLE_LEN && all_chars(role@, |c: char| is_ascii_alnum(c))),
        r is Err ==> r == Err::<(), ActorIdError>(ActorIdError::InvalidRole),
{
    if byte_len_of(role) != ROLE_LEN as u128 || !all_alnum(role) {
        return Err(ActorIdError::InvalidRole);
    }
    Ok(())
}

fn validate_zone_component(zone: &[char]) -> (r: Result<(), ActorIdError>)
    ensures
        r is Ok <==> (byte_len(zone@) == ZONE_LEN && all_chars(zone@, |c: char| is_ascii_alnum(c))),
        r is Err ==> r == Err::<(), ActorIdError>(ActorIdError::InvalidZone),
{
    if byte_len_of(zone) != ZONE_LEN as u128 || !all_alnum(zone) {
        return Err(ActorIdError::InvalidZone);
    }
    Ok(())
}

fn validate_serial_component(serial: &[char]) -> (r: Result<(), ActorIdError>)
    ensures
        r is Ok <==> (byte_len(serial@) == SERIAL_HEX_LEN && all_chars(
            serial@,
            |c: char| is_ascii_hexdigit(c),
        )),
        r is Err ==> r == Err::<(), ActorIdError>(ActorIdError::InvalidSerial),
{
    if byte_len_of(serial) != SERIAL_HEX_LEN as u128 {
        return Err(ActorIdError::InvalidSerial);
    }
    if !all_hex(serial) {
        return Err(ActorIdError::InvalidSerial);
    }
    Ok(())
}

fn is_checksum_char(c: char) -> (r: bool)
    ensures
        r == is_checksum_symbol(c),
{
    ('A' <= c && c <= 'H') || ('J' <= c && c <= 'N') || ('P' <= c && c <= 'Z') || ('2' <= c && c
        <= '9')
}

fn validate_checksum_component(checksum: &[char]) -> (r: Result<(), ActorIdError>)
    ensures
        r is Ok <==> (byte_len(checksum@) == CHECKSUM_LEN && all_chars(
            checksum@,
            |c: char| is_checksum_symbol(c),
        )),
        r is Err ==> r == Err::<(), ActorIdError>(ActorIdError::InvalidChecksum),
{
    if byte_len_of(checksum) != CHECKSUM_LEN as u128 {
        return Err(ActorIdError::InvalidChecksum);
    }
    let n = checksum.len();
    let mut i: usize = 0;
    while i < n
        invariant
            n == checksum@.len(),
            i <= n,
            forall|j: int| 0 <= j < i ==> is_checksum_symbol(#[trigger] checksum@[j]),
        decreases n - i,
    {
        if !is_checksum_char(checksum[i]) {
            return Err(ActorIdError::InvalidChecksum);
        }
        i += 1;
    }
    Ok(())
}

// ---------------------------------------------------------------------------
// Laws
// ---------------------------------------------------------------------------

/// An uppercase ASCII letter or a digit.
pub open spec fn is_canon_char(c: char) -> bool {
    is_ascii_digit(c) || is_ascii_upper(c)
}

pub open spec fn is_canon_or_dash(c: char) -> bool {
    is_canon_char(c) || c == '-'
}

pub open spec fn all_canon(s: Seq<char>) -> bool {
    forall|i: int| 0 <= i < s.len() ==> is_canon_char(#[trigger] s[i])
}

pub open spec fn all_canon_or_dash(s: Seq<char>) -> bool {
    forall|i: int| 0 <= i < s.len() ==> is_canon_or_dash(#[trigger] s[i])
}

proof fn lemma_upper_not_lower(c: char)
    ensures
        !is_ascii_lower(to_upper(c)),
{
    if is_ascii_lower(c) {
        let u = (c as u32) - 32;
        assert(65 <= u <= 90);
        assert((u as char) as u32 == u);
    }
}

proof fn lemma_keep_alnum_canon(s: Seq<char>)
    requires
        forall|i: int| 0 <= i < s.len() ==> !is_ascii_lower(#[trigger] s[i]),
    ensures
        all_canon(keep_alnum(s)),
        keep_alnum(s).len() <= s.len(),
    decreases s.len(),
{
    if s.len() > 0 {
        let a = s.drop_last();
        assert forall|i: int| 0 <= i < a.len() implies !is_ascii_lower(#[trigger] a[i]) by {
            assert(a[i] == s[i]);
        }
        lemma_keep_alnum_canon(a);
        let k = keep_alnum(s);
        let k0 = keep_alnum(a);
        assert forall|i: int| 0 <= i < k.len() implies is_canon_char(#[trigger] k[i]) by {
            if i < k0.len() {
                assert(k[i] == k0[i]);
            } else {
                assert(k[i] == s.last());
                assert(!is_ascii_lower(s[s.len() - 1]));
            }
        }
    }
}

proof fn lemma_normalized(value: Seq<char>, len: nat)
    ensures
        normalized(value, len) is Some ==> normalized(value, len)->0.len() == len && all_canon(
            normalized(value, len)->0,
        ),
{
    let up = upper_seq(value);
    assert forall|i: int| 0 <= i < up.len() implies !is_ascii_lower(#[trigger] up[i]) by {
        lemma_upper_not_lower(value[i]);
    }
    lemma_keep_alnum_canon(up);
    let kept = keep_alnum(up);
    let cut = if kept.len() > len {
        kept.take(len as int)
    } else {
        kept
    };
    if cut.len() > 0 {
        let x = cut + Seq::new((len - cut.len()) as nat, |i: int| 'X');
        assert forall|i: int| 0 <= i < x.len() implies is_canon_char(#[trigger] x[i]) by {
            if i < cut.len() {
                assert(x[i] == cut[i]);
                assert(cut[i] == kept[i]);
            } else {
                assert(x[i] == 'X');
            }
        }
    }
}

proof fn lemma_canon_facts(s: Seq<char>)
    requires
        all_canon(s),
    ensures
        has_no(s, '-'),
        all_canon_or_dash(s),
        all_chars(s, |c: char| is_ascii_alnum(c)),
        upper_seq(s) == s,
        byte_len(s) == s.len(),
{
    assert forall|i: int| 0 <= i < s.len() implies !is_ascii_lower(#[trigger] s[i]) by {
        assert(is_canon_char(s[i]));
    }
    lemma_upper_fixed(s);
    assert(all_ascii(s)) by {
        assert forall|i: int| 0 <= i < s.len() implies (#[trigger] s[i] as u32) < 128 by {
            assert(is_canon_char(s[i]));
        }
    }
    lemma_ascii_byte_len(s);
}

proof fn lemma_canon_concat(x: Seq<char>, y: Seq<char>)
    requires
        all_canon_or_dash(x),
        all_canon_or_dash(y),
    ensures
        all_canon_or_dash(x + y),
{
    assert forall|i: int| 0 <= i < (x + y).len() implies is_canon_or_dash(#[trigger] (x + y)[i]) by {
        if i < x.len() {
            assert((x + y)[i] == x[i]);
        } else {
            assert((x + y)[i] == y[i - x.len()]);
        }
    }
}

/// Every identifier that `generate_actor_id` produces passes
/// `validate_actor_id`.
pub proof fn law_generated_validates(pubkey: Seq<u8>, role: Seq<char>, zone: Seq<char>)
    ensures
        generated(pubkey, role, zone) is Ok ==> validation(generated(pubkey, role, zone)->Ok_0)
            == Ok::<(), ActorIdError>(()),
        generated(pubkey, role, zone) is Ok ==> upper_seq(trim(generated(pubkey, role, zone)->Ok_0))
            == generated(pubkey, role, zone)->Ok_0,
{
    if generated(pubkey, role, zone) is Ok {
        let r = normalized(role, ROLE_LEN as nat)->0;
        let z = normalized(zone, ZONE_LEN as nat)->0;
        let s = serial_of(pubkey, r, z);
        let c = checksum_of(r, z, s);
        let id = assemble(r, z, s, c);
        lemma_normalized(role, ROLE_LEN as nat);
        lemma_normalized(zone, ZONE_LEN as nat);
        let sb = serial_bytes(pubkey, r, z);
        lemma_hex_upper_len(sb);
        lemma_hex_upper_chars(sb);
        assert(all_canon(s)) by {
            assert forall|i: int| 0 <= i < s.len() implies is_canon_char(#[trigger] s[i]) by {
                assert(is_ascii_digit(hex_upper(sb)[i]) || ('A' <= hex_upper(sb)[i] && hex_upper(
                    sb,
                )[i] <= 'F'));
            }
        }
        assert(all_canon(c) && all_chars(c, |ch: char| is_checksum_symbol(ch))) by {
            let h = shake256(checksum_message(r, z, s), CHECKSUM_LEN as nat);
            assert forall|i: int| 0 <= i < c.len() implies is_canon_char(#[trigger] c[i])
                && is_checksum_symbol(c[i]) by {
                assert(c[i] == checksum_symbol((h[i] % 32) as int));
            }
        }
        reveal_strlit("AOXC");
        let p = AOXC_PREFIX@;
        assert(p =~= seq!['A', 'O', 'X', 'C']);
        assert(all_canon(p)) by {
            assert forall|i: int| 0 <= i < p.len() implies is_canon_char(#[trigger] p[i]) by {
                assert(p[i] == 'A' || p[i] == 'O' || p[i] == 'X' || p[i] == 'C');
            }
        }
        lemma_canon_facts(p);
        lemma_canon_facts(r);
        lemma_canon_facts(z);
        lemma_canon_facts(s);
        lemma_canon_facts(c);
        let dash = seq!['-'];
        assert(all_canon_or_dash(dash));
        let a1 = p + dash + r;
        let a2 = a1 + dash + z;
        let a3 = a2 + dash + s;
        lemma_split_single(p, '-');
        lemma_split_append(p, r, '-');
        lemma_split_append(a1, z, '-');
        lemma_split_append(a2, s, '-');
        lemma_split_append(a3, c, '-');
        assert(id == a3 + dash + c);
        let parts = split_on(id, '-');
        assert(parts =~= seq![p, r, z, s, c]);
        lemma_canon_concat(p, dash);
        lemma_canon_concat(p + dash, r);
        lemma_canon_concat(a1, dash);
        lemma_canon_concat(a1 + dash, z);
        lemma_canon_concat(a2, dash);
        lemma_canon_concat(a2 + dash, s);
        lemma_canon_concat(a3, dash);
        lemma_canon_concat(a3 + dash, c);
        assert(all_chars(id, |ch: char| is_alnum_or_dash(ch))) by {
            assert forall|i: int| 0 <= i < id.len() implies is_alnum_or_dash(#[trigger] id[i]) by {
                assert(is_canon_or_dash(id[i]));
            }
        }
        assert(id[0] == 'A');
        assert(id.last() == c.last());
        assert(is_canon_char(c[c.len() - 1]));
        lemma_trim_fixed(id);
        assert(trim(id) == id);
        assert(id.len() > 0);
        lemma_trim_empty(id);
        let q = parts.map_values(|x: Seq<char>| upper_seq(x));
        assert(q =~= seq![p, r, z, s, c]);
        assert(parsed(id) == Ok::<Seq<Seq<char>>, ActorIdError>(q));
        assert(components_error(q) is None);
        assert forall|i: int| 0 <= i < id.len() implies !is_ascii_lower(#[trigger] id[i]) by {
            assert(is_canon_or_dash(id[i]));
        }
        lemma_upper_fixed(id);
    }
}

/// An identifier produced by `generate_actor_id` for a public key, role and
/// zone is accepted by `verify_actor_id_binding` for the same inputs.
pub proof fn law_generated_binds(pubkey: Seq<u8>, role: Seq<char>, zone: Seq<char>)
    requires
        generated(pubkey, role, zone) is Ok,
    ensures
        binding(generated(pubkey, role, zone)->Ok_0, pubkey, role, zone) == Ok::<(), ActorIdError>(()),
{
    law_generated_validates(pubkey, role, zone);
}

/// `verify_actor_id_binding` accepts only an identifier that validates and
/// that, trimmed and uppercased, is the one generated for the public key,
/// role and zone.
pub proof fn law_binding_means_generated(s: Seq<char>, pubkey: Seq<u8>, role: Seq<char>, zone: Seq<char>)
    requires
        binding(s, pubkey, role, zone) is Ok,
    ensures
        validation(s) is Ok,
        generated(pubkey, role, zone) is Ok,
        upper_seq(trim(s)) == generated(pubkey, role, zone)->Ok_0,
{
}

} // verus!
