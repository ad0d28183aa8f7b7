//! Deterministic key derivation: path-scoped entropy from a 512-bit master
//! seed under explicit domain separation, and compact role-scoped seeds.

use vstd::prelude::*;
use vstd::utf8::encode_utf8;

use crate::crypto::sha3_256;
use crate::crypto::sha3_256_digest;
use crate::crypto::sha3_512;
use crate::crypto::sha3_512_digest;
use crate::identity::hd_path::HdPath;
use crate::platform::os_random_64;
use crate::text::all_chars;
use crate::text::all_ident;
use crate::text::be_u32;
use crate::text::byte_len;
use crate::text::byte_len_of;
use crate::text::chars_of;
use crate::text::encode_hex_upper;
use crate::text::has_outer_ws;
use crate::text::hex_upper;
use crate::text::hex_upper_prefix;
use crate::text::is_blank;
use crate::text::is_ident_char;
use crate::text::push_be_u32;
use crate::text::push_bytes;
use crate::text::push_str_bytes;
use crate::text::str_to_string;
use crate::text::trim;

verus! {

pub const AOXC_KEY_DOMAIN: &'static str = "AOXC/IDENTITY/KEY_ENGINE/V1";

pub const AOXC_KEY_FINGERPRINT_DOMAIN: &'static str = "AOXC/IDENTITY/KEY_ENGINE/FINGERPRINT/V1";

pub const AOXC_ROLE_SEED_DOMAIN: &'static str = "AOXC/IDENTITY/KEY_ENGINE/ROLE_SEED/V1";

/// Master-seed size in bytes.
pub const MASTER_SEED_LEN: usize = 64;

/// Derived entropy size in bytes.
pub const DERIVED_ENTROPY_LEN: usize = 64;

/// Role-seed size in bytes.
pub const ROLE_SEED_LEN: usize = 32;

/// HD purpose of AOXC derivation (`m / 44 / 2626 / chain / role / zone / index`).
pub const AOXC_HD_PURPOSE: u32 = 2626;

pub const AOXC_HD_BIP44_PURPOSE: u32 = 44;

/// Largest accepted path component (the unhardened range).
pub const MAX_CANONICAL_HD_COMPONENT: u32 = 0x7FFF_FFFF;

/// Maximum role-label length, in bytes.
pub const MAX_ROLE_LABEL_LEN: usize = 64;

/// Key-engine errors.
#[derive(Debug, Clone, PartialEq, Eq, Structural)]
#[non_exhaustive]
pub enum KeyEngineError {
    InvalidPath,
    InvalidEntropyLength,
    EmptyRoleLabel,
    InvalidRoleLabel,
    EntropyUnavailable,
}

impl KeyEngineError {
    pub open spec fn code_text(&self) -> Seq<char> {
        match self {
            KeyEngineError::InvalidPath => "KEY_ENGINE_INVALID_PATH"@,
            KeyEngineError::InvalidEntropyLength => "KEY_ENGINE_INVALID_ENTROPY_LENGTH"@,
            KeyEngineError::EmptyRoleLabel => "KEY_ENGINE_EMPTY_ROLE_LABEL"@,
            KeyEngineError::InvalidRoleLabel => "KEY_ENGINE_INVALID_ROLE_LABEL"@,
            KeyEngineError::EntropyUnavailable => "KEY_ENGINE_ENTROPY_UNAVAILABLE"@,
        }
    }

    /// Stable symbolic error code for logs and telemetry.
    pub fn code(&self) -> (r: &'static str)
        ensures
            r@ == self.code_text(),
    {
        match self {
            KeyEngineError::InvalidPath => "KEY_ENGINE_INVALID_PATH",
            KeyEngineError::InvalidEntropyLength => "KEY_ENGINE_INVALID_ENTROPY_LENGTH",
            KeyEngineError::EmptyRoleLabel => "KEY_ENGINE_EMPTY_ROLE_LABEL",
            KeyEngineError::InvalidRoleLabel => "KEY_ENGINE_INVALID_ROLE_LABEL",
            KeyEngineError::EntropyUnavailable => "KEY_ENGINE_ENTROPY_UNAVAILABLE",
        }
    }

    pub open spec fn message_text(&self) -> Seq<char> {
        match self {
            KeyEngineError::InvalidPath => "key derivation failed: HD path is invalid"@,
            KeyEngineError::InvalidEntropyLength => "key derivation failed: derived entropy length is invalid"@,
            KeyEngineError::EmptyRoleLabel => "key derivation failed: role label must not be empty"@,
            KeyEngineError::InvalidRoleLabel => "key derivation failed: role label is not canonical"@,
            KeyEngineError::EntropyUnavailable => "key engine creation failed: operating-system randomness is unavailable"@,
        }
    }

    /// Human-readable description of the error.
    pub fn message(&self) -> (r: String)
        ensures
            r@ == self.message_text(),
    {
        match self {
            KeyEngineError::InvalidPath => str_to_string("key derivation failed: HD path is invalid"),
            KeyEngineError::InvalidEntropyLength => str_to_string("key derivation failed: derived entropy length is invalid"),
            KeyEngineError::EmptyRoleLabel => str_to_string("key derivation failed: role label must not be empty"),
            KeyEngineError::InvalidRoleLabel => str_to_string("key derivation failed: role label is not canonical"),
            KeyEngineError::EntropyUnavailable => str_to_string(
                "key engine creation failed: operating-system randomness is unavailable",
            ),
        }
    }
}

/// A path is refused when it is all zero or a component lies outside the
/// unhardened range.
pub open spec fn path_invalid(p: HdPath) -> bool {
    (p.chain == 0 && p.role == 0 && p.zone == 0 && p.index == 0) || p.chain
        > MAX_CANONICAL_HD_COMPONENT || p.role > MAX_CANONICAL_HD_COMPONENT || p.zone
        > MAX_CANONICAL_HD_COMPONENT || p.index > MAX_CANONICAL_HD_COMPONENT
}

/// The bytes hashed for path-scoped entropy: domain, both purposes, the
/// master seed and the four components, big-endian, separated by zero bytes.
pub open spec fn entropy_message(seed: Seq<u8>, p: HdPath) -> Seq<u8> {
    encode_utf8(AOXC_KEY_DOMAIN@) + seq![0u8] + be_u32(AOXC_HD_BIP44_PURPOSE) + seq![0u8] + be_u32(
        AOXC_HD_PURPOSE,
    ) + seq![0u8] + seed + seq![0u8] + be_u32(p.chain) + seq![0u8] + be_u32(p.role) + seq![0u8]
        + be_u32(p.zone) + seq![0u8] + be_u32(p.index)
}

/// Path-scoped entropy: SHA3-512 of the entropy message.
pub open spec fn derived_entropy(seed: Seq<u8>, p: HdPath) -> Seq<u8> {
    sha3_512(entropy_message(seed, p))
}

/// Blank labels are empty; outer whitespace, more than `MAX_ROLE_LABEL_LEN`
/// bytes, internal whitespace or a character outside `[A-Za-z0-9_.-]` make a
/// label invalid.
pub open spec fn role_label_error(s: Seq<char>) -> Option<KeyEngineError> {
    if trim(s).len() == 0 {
        Some(KeyEngineError::EmptyRoleLabel)
    } else if trim(s) != s || byte_len(s) > MAX_ROLE_LABEL_LEN || !all_chars(
        s,
        |c: char| is_ident_char(c),
    ) {
        Some(KeyEngineError::InvalidRoleLabel)
    } else {
        None
    }
}

/// A role seed: SHA3-256 of the domain, the label and the key material.
pub open spec fn role_seed(material: Seq<u8>, label: Seq<char>) -> Seq<u8> {
    sha3_256(encode_utf8(AOXC_ROLE_SEED_DOMAIN@) + seq![0u8] + encode_utf8(label) + seq![0u8] + material)
}

/// An engine fingerprint: the first 16 bytes of SHA3-512 over the domain and
/// the master seed, in uppercase hexadecimal.
pub open spec fn engine_fingerprint(seed: Seq<u8>) -> Seq<char> {
    hex_upper(sha3_512(encode_utf8(AOXC_KEY_FINGERPRINT_DOMAIN@) + seq![0u8] + seed).take(16))
}

fn validate_hd_path(path: &HdPath) -> (r: Result<(), KeyEngineError>)
    ensures
        r == if path_invalid(*path) {
            Err::<(), KeyEngineError>(KeyEngineError::InvalidPath)
        } else {
            Ok(())
        },
{
    if path.chain == 0 && path.role == 0 && path.zone == 0 && path.index == 0 {
        return Err(KeyEngineError::InvalidPath);
    }
    if path.chain > MAX_CANONICAL_HD_COMPONENT || path.role > MAX_CANONICAL_HD_COMPONENT
        || path.zone > MAX_CANONICAL_HD_COMPONENT || path.index > MAX_CANONICAL_HD_COMPONENT {
        return Err(KeyEngineError::InvalidPath);
    }
    Ok(())
}

fn validate_role_label(role_label: &str) -> (r: Result<(), KeyEngineError>)
    ensures
        r == match role_label_error(role_label@) {
            Some(e) => Err(e),
            None => Ok(()),
        },
{
    let cs = chars_of(role_label);
    if is_blank(&cs) {
        return Err(KeyEngineError::EmptyRoleLabel);
    }
    if has_outer_ws(&cs) || byte_len_of(&cs) > MAX_ROLE_LABEL_LEN as u128 || !all_ident(&cs) {
        return Err(KeyEngineError::InvalidRoleLabel);
    }
    Ok(())
}

/// A compact role-scoped 32-byte seed from 64 bytes of key material.
pub fn derive_role_seed_from_material(material: &[u8; DERIVED_ENTROPY_LEN], role_label: &str) -> (r:
    Result<[u8; ROLE_SEED_LEN], KeyEngineError>)
    ensures
        match r {
            Ok(s) => role_label_error(role_label@) is None && s@ == role_seed(material@, role_label@),
            Err(e) => role_label_error(role_label@) == Some(e),
        },
{
    if let Err(e) = validate_role_label(role_label) {
        return Err(e);
    }
    let mut m: Vec<u8> = Vec::new();
    push_str_bytes(&mut m, AOXC_ROLE_SEED_DOMAIN);
    m.push(0u8);
    push_str_bytes(&mut m, role_label);
    m.push(0u8);
    push_bytes(&mut m, material);
    assert(m@ =~= encode_utf8(AOXC_ROLE_SEED_DOMAIN@) + seq![0u8] + encode_utf8(role_label@) + seq![0u8]
        + material@);
    Ok(sha3_256_digest(m.as_slice()))
}

/// Deterministic key-derivation engine over a 512-bit master seed.
#[derive(Debug, Clone)]
pub struct KeyEngine {
    master_seed: [u8; MASTER_SEED_LEN],
}

impl KeyEngine {
    /// The master seed the engine derives from.
    pub closed spec fn seed(&self) -> Seq<u8> {
        self.master_seed@
    }

    /// An engine over the given seed, or over 64 fresh random bytes from
    /// the operating system when none is given (`EntropyUnavailable` when
    /// the operating system has none).
    pub fn new(seed: Option<[u8; MASTER_SEED_LEN]>) -> (r: Result<Self, KeyEngineError>)
        ensures
            seed is Some ==> r is Ok && r->Ok_0.seed() == seed.unwrap()@,
            r is Ok ==> r->Ok_0.seed().len() == MASTER_SEED_LEN,
            r is Err ==> seed is None && r == Err::<Self, KeyEngineError>(KeyEngineError::EntropyUnavailable),
    {
        match seed {
            Some(s) => Ok(KeyEngine { master_seed: s }),
            None => match os_random_64() {
                Some(bytes) => Ok(KeyEngine { master_seed: bytes }),
                None => Err(KeyEngineError::EntropyUnavailable),
            },
        }
    }

    /// An engine over an explicit master seed.
    pub fn from_seed(seed: [u8; MASTER_SEED_LEN]) -> (r: Self)
        ensures
            r.seed() == seed@,
    {
        KeyEngine { master_seed: seed }
    }

    /// The master seed.
    pub fn master_seed(&self) -> (r: &[u8; MASTER_SEED_LEN])
        ensures
            r@ == self.seed(),
    {
        &self.master_seed
    }

    /// Path-scoped entropy: refused for an invalid path, otherwise SHA3-512
    /// of the entropy message.
    pub fn try_derive_entropy(&self, path: &HdPath) -> (r: Result<[u8; DERIVED_ENTROPY_LEN], KeyEngineError>)
        ensures
            match r {
                Ok(e) => !path_invalid(*path) && e@ == derived_entropy(self.seed(), *path),
                Err(e) => path_invalid(*path) && e == KeyEngineError::InvalidPath,
            },
    {
        if let Err(e) = validate_hd_path(path) {
            return Err(e);
        }
        let mut m: Vec<u8> = Vec::new();
        push_str_bytes(&mut m, AOXC_KEY_DOMAIN);
        m.push(0u8);
        push_be_u32(&mut m, AOXC_HD_BIP44_PURPOSE);
        m.push(0u8);
        push_be_u32(&mut m, AOXC_HD_PURPOSE);
        m.push(0u8);
        push_bytes(&mut m, &self.master_seed);
        m.push(0u8);
        push_be_u32(&mut m, path.chain);
        m.push(0u8);
        push_be_u32(&mut m, path.role);
        m.push(0u8);
        push_be_u32(&mut m, path.zone);
        m.push(0u8);
        push_be_u32(&mut m, path.index);
        assert(m@ =~= entropy_message(self.seed(), *path));
        let digest = sha3_512_digest(m.as_slice());
        if digest.len() != DERIVED_ENTROPY_LEN {
            return Err(KeyEngineError::InvalidEntropyLength);
        }
        Ok(digest)
    }

    /// Path-scoped entropy (same as `try_derive_entropy`).
    pub fn derive_entropy(&self, path: &HdPath) -> (r: Result<[u8; DERIVED_ENTROPY_LEN], KeyEngineError>)
        ensures
            match r {
                Ok(e) => !path_invalid(*path) && e@ == derived_entropy(self.seed(), *path),
                Err(e) => path_invalid(*path) && e == KeyEngineError::InvalidPath,
            },
    {
        self.try_derive_entropy(path)
    }

    /// Path-scoped entropy in uppercase hexadecimal (128 characters).
    pub fn derive_entropy_hex(&self, path: &HdPath) -> (r: Result<String, KeyEngineError>)
        ensures
            match r {
                Ok(h) => !path_invalid(*path) && h@ == hex_upper(derived_entropy(self.seed(), *path)),
                Err(e) => path_invalid(*path) && e == KeyEngineError::InvalidPath,
            },
    {
        match self.try_derive_entropy(path) {
            Ok(e) => Ok(encode_hex_upper(&e)),
            Err(e) => Err(e),
        }
    }

    /// Child key material for downstream key generation (the path-scoped
    /// entropy).
    pub fn derive_key_material(&self, path: &HdPath) -> (r: Result<[u8; DERIVED_ENTROPY_LEN], KeyEngineError>)
        ensures
            match r {
                Ok(e) => !path_invalid(*path) && e@ == derived_entropy(self.seed(), *path),
                Err(e) => path_invalid(*path) && e == KeyEngineError::InvalidPath,
            },
    {
        self.try_derive_entropy(path)
    }

    /// A role seed from the key material of `path`: the path is checked
    /// first, then the label.
    pub fn derive_role_seed(&self, path: &HdPath, role_label: &str) -> (r: Result<
        [u8; ROLE_SEED_LEN],
        KeyEngineError,
    >)
        ensures
            match r {
                Ok(s) => !path_invalid(*path) && role_label_error(role_label@) is None && s@ == role_seed(
                    derived_entropy(self.seed(), *path),
                    role_label@,
                ),
                Err(e) => if path_invalid(*path) {
                    e == KeyEngineError::InvalidPath
                } else {
                    role_label_error(role_label@) == Some(e)
                },
            },
    {
        let material = match self.derive_key_material(path) {
            Ok(m) => m,
            Err(e) => return Err(e),
        };
        derive_role_seed_from_material(&material, role_label)
    }

    /// Engine fingerprint (32 uppercase hexadecimal characters).
    pub fn fingerprint(&self) -> (r: String)
        ensures
            r@ == engine_fingerprint(self.seed()),
    {
        let mut m: Vec<u8> = Vec::new();
        push_str_bytes(&mut m, AOXC_KEY_FINGERPRINT_DOMAIN);
        m.push(0u8);
        push_bytes(&mut m, &self.master_seed);
        assert(m@ =~= encode_utf8(AOXC_KEY_FINGERPRINT_DOMAIN@) + seq![0u8] + self.seed());
        let digest = sha3_512_digest(m.as_slice());
        hex_upper_prefix(&digest, 16)
    }
}

} // verus!
