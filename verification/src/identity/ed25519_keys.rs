//! Ed25519 keys derived from key-engine material for a role.

use vstd::prelude::*;
use vstd::utf8::encode_utf8;

use crate::crypto::ed25519_public_key;
use crate::crypto::ed25519_public_key_of_seed;
use crate::crypto::ed25519_sign;
use crate::crypto::ed25519_signature;
use crate::crypto::ed25519_verify;
use crate::crypto::ed25519_verify_signature;
use crate::crypto::sha3_256;
use crate::crypto::sha3_256_digest;
use crate::identity::key_engine::DERIVED_ENTROPY_LEN;
use crate::text::chars_of;
use crate::text::encode_hex_upper;
use crate::text::hex_upper;
use crate::text::hex_upper_prefix;
use crate::text::is_blank;
use crate::text::push_bytes;
use crate::text::push_str_bytes;
use crate::text::str_to_string;
use crate::text::trim;

verus! {

pub const AOXC_ED25519_ROLE_SEED_DOMAIN: &'static str = "AOXC-ED25519-ROLE-SEED-V1";

/// Ed25519 public-key length in bytes.
pub const AOXC_ED25519_PUBLIC_KEY_LEN: usize = 32;

/// Ed25519 seed length in bytes.
pub const AOXC_ED25519_SEED_LEN: usize = 32;

/// Ed25519 derivation errors.
#[derive(Debug, Clone, PartialEq, Eq, Structural)]
#[non_exhaustive]
pub enum Ed25519KeyError {
    EmptyRoleLabel,
}

impl Ed25519KeyError {
    pub open spec fn message_text(&self) -> Seq<char> {
        "ed25519 key derivation failed: role label must not be empty"@
    }

    /// Human-readable description of the error.
    pub fn message(&self) -> (r: String)
        ensures
            r@ == self.message_text(),
    {
        str_to_string("ed25519 key derivation failed: role label must not be empty")
    }
}

/// The Ed25519 seed of a role: SHA3-256 of the domain, the role label and the
/// key material.
pub open spec fn ed25519_role_seed(material: Seq<u8>, label: Seq<char>) -> Seq<u8> {
    sha3_256(encode_utf8(AOXC_ED25519_ROLE_SEED_DOMAIN@) + seq![0u8] + encode_utf8(label) + seq![0u8]
        + material)
}

/// The Ed25519 seed for a role; a blank label is refused.
pub fn derive_ed25519_seed(material: &[u8; DERIVED_ENTROPY_LEN], role_label: &str) -> (r: Result<
    [u8; AOXC_ED25519_SEED_LEN],
    Ed25519KeyError,
>)
    ensures
        match r {
            Ok(s) => trim(role_label@).len() != 0 && s@ == ed25519_role_seed(material@, role_label@),
            Err(e) => trim(role_label@).len() == 0 && e == Ed25519KeyError::EmptyRoleLabel,
        },
{
    let cs = chars_of(role_label);
    if is_blank(&cs) {
        return Err(Ed25519KeyError::EmptyRoleLabel);
    }
    let mut m: Vec<u8> = Vec::new();
    push_str_bytes(&mut m, AOXC_ED25519_ROLE_SEED_DOMAIN);
    m.push(0u8);
    push_str_bytes(&mut m, role_label);
    m.push(0u8);
    push_bytes(&mut m, material);
    assert(m@ =~= encode_utf8(AOXC_ED25519_ROLE_SEED_DOMAIN@) + seq![0u8] + encode_utf8(role_label@)
        + seq![0u8] + material@);
    Ok(sha3_256_digest(m.as_slice()))
}

/// An Ed25519 signing key, held as its 32-byte secret seed.
#[derive(Debug, Clone, Copy, PartialEq, Eq)]
pub struct Ed25519SigningKey {
    pub seed: [u8; AOXC_ED25519_SEED_LEN],
}

/// An Ed25519 public key as its 32 compressed-point bytes.
#[derive(Debug, Clone, Copy, PartialEq, Eq)]
pub struct Ed25519PublicKey {
    pub bytes: [u8; AOXC_ED25519_PUBLIC_KEY_LEN],
}

impl Ed25519SigningKey {
    /// The secret seed.
    pub fn to_bytes(&self) -> (r: [u8; AOXC_ED25519_SEED_LEN])
        ensures
            r == self.seed,
    {
        self.seed
    }

    /// The public key of this signing key.
    pub fn verifying_key(&self) -> (r: Ed25519PublicKey)
        ensures
            r.bytes@ == ed25519_public_key(self.seed@),
    {
        Ed25519PublicKey { bytes: ed25519_public_key_of_seed(&self.seed) }
    }

    /// The Ed25519 signature of `message`; it verifies under this key's
    /// public key.
    pub fn sign(&self, message: &[u8]) -> (r: [u8; 64])
        ensures
            r@ == ed25519_signature(self.seed@, message@),
            ed25519_verify(ed25519_public_key(self.seed@), message@, r@),
    {
        ed25519_sign(&self.seed, message)
    }
}

impl Ed25519PublicKey {
    /// The compressed-point bytes.
    pub fn to_bytes(&self) -> (r: [u8; AOXC_ED25519_PUBLIC_KEY_LEN])
        ensures
            r == self.bytes,
    {
        self.bytes
    }

    /// Whether `signature` is a valid Ed25519 signature of `message` under
    /// this key.
    pub fn verify(&self, message: &[u8], signature: &[u8; 64]) -> (r: bool)
        ensures
            r == ed25519_verify(self.bytes@, message@, signature@),
    {
        ed25519_verify_signature(&self.bytes, message, signature)
    }
}

/// The signing key for a role's seed; a blank label is refused.
pub fn derive_ed25519_signing_key(material: &[u8; DERIVED_ENTROPY_LEN], role_label: &str) -> (r: Result<
    Ed25519SigningKey,
    Ed25519KeyError,
>)
    ensures
        match r {
            Ok(k) => trim(role_label@).len() != 0 && k.seed@ == ed25519_role_seed(material@, role_label@),
            Err(e) => trim(role_label@).len() == 0 && e == Ed25519KeyError::EmptyRoleLabel,
        },
{
    match derive_ed25519_seed(material, role_label) {
        Ok(seed) => Ok(Ed25519SigningKey { seed }),
        Err(e) => Err(e),
    }
}

/// The public (verifying) key for a role's seed; a blank label is refused.
pub fn derive_ed25519_verifying_key(material: &[u8; DERIVED_ENTROPY_LEN], role_label: &str) -> (r:
    Result<Ed25519PublicKey, Ed25519KeyError>)
    ensures
        match r {
            Ok(k) => trim(role_label@).len() != 0 && k.bytes@ == ed25519_public_key(
                ed25519_role_seed(material@, role_label@),
            ),
            Err(e) => trim(role_label@).len() == 0 && e == Ed25519KeyError::EmptyRoleLabel,
        },
{
    match derive_ed25519_signing_key(material, role_label) {
        Ok(key) => Ok(key.verifying_key()),
        Err(e) => Err(e),
    }
}

/// The public key in uppercase hexadecimal (64 characters).
pub fn encode_ed25519_public_key_hex(public_key: &Ed25519PublicKey) -> (r: String)
    ensures
        r@ == hex_upper(public_key.bytes@),
{
    encode_hex_upper(&public_key.bytes)
}

/// Short fingerprint of a public key: the first 8 bytes of SHA3-256 of the
/// key bytes, in uppercase hexadecimal.
pub fn fingerprint_ed25519_public_key(public_key: &Ed25519PublicKey) -> (r: String)
    ensures
        r@ == hex_upper(sha3_256(public_key.bytes@).take(8)),
{
    let digest = sha3_256_digest(&public_key.bytes);
    hex_upper_prefix(&digest, 8)
}

} // verus!
