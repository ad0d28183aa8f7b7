//! The canonical AOXC core identity: its protocol lines, strict validation
//! and a domain-separated SHA3-256 commitment over them.

use vstd::prelude::*;
use vstd::utf8::encode_utf8;

use crate::crypto::sha3_256;
use crate::crypto::sha3_256_digest;
use crate::text::chars_end_with;
use crate::text::chars_of;
use crate::text::encode_hex_upper;
use crate::text::ends_with;
use crate::text::hex_upper;
use crate::text::hex_upper_prefix;
use crate::text::lemma_hex_upper_len;
use crate::text::push_str_bytes;
use crate::text::str_eq;
use crate::text::str_to_string;

verus! {

/// Schema generation of the core identity contract.
pub const AOXC_CORE_IDENTITY_SCHEMA_VERSION: u8 = 1;

/// Canonical core name.
pub const AOXC_CANONICAL_CORE_NAME: &'static str = "AOXC Canonical Core";

/// Canonical core line.
pub const AOXC_CORE_LINE: &'static str = "AOXC-CORE-V1";

/// Canonical block format line (draft).
pub const AOXC_BLOCK_FORMAT_LINE: &'static str = "AOXC-BLOCK-FMT-V1-draft";

/// Canonical genesis authority line (draft).
pub const AOXC_GENESIS_AUTH_LINE: &'static str = "AOXC-GENESIS-AUTH-V1-draft";

/// Domain separator of the identity commitment.
pub const AOXC_CORE_IDENTITY_DOMAIN: &'static str = "AOXC/CORE_IDENTITY/V1";

/// Suffix that marks a draft protocol line.
pub const DRAFT_SUFFIX: &'static str = "-draft";

/// The public identity of the core protocol surface.
#[derive(Debug, Clone, Copy, PartialEq, Eq)]
pub struct CoreIdentity {
    pub name: &'static str,
    pub line: &'static str,
    pub block_format: &'static str,
    pub genesis_authority: &'static str,
}

/// Validation failures of a core identity.
#[derive(Debug, Clone, Copy, PartialEq, Eq, Structural)]
#[non_exhaustive]
pub enum CoreIdentityError {
    InvalidName,
    InvalidLine,
    InvalidBlockFormat,
    InvalidGenesisAuthority,
}

impl CoreIdentityError {
    pub open spec fn code_text(&self) -> Seq<char> {
        match self {
            CoreIdentityError::InvalidName => "CORE_IDENTITY_INVALID_NAME"@,
            CoreIdentityError::InvalidLine => "CORE_IDENTITY_INVALID_LINE"@,
            CoreIdentityError::InvalidBlockFormat => "CORE_IDENTITY_INVALID_BLOCK_FORMAT"@,
            CoreIdentityError::InvalidGenesisAuthority => "CORE_IDENTITY_INVALID_GENESIS_AUTHORITY"@,
        }
    }

    /// Stable symbolic error code for logs and telemetry.
    pub fn code(&self) -> (r: &'static str)
        ensures
            r@ == self.code_text(),
    {
        match self {
            CoreIdentityError::InvalidName => "CORE_IDENTITY_INVALID_NAME",
            CoreIdentityError::InvalidLine => "CORE_IDENTITY_INVALID_LINE",
            CoreIdentityError::InvalidBlockFormat => "CORE_IDENTITY_INVALID_BLOCK_FORMAT",
            CoreIdentityError::InvalidGenesisAuthority => "CORE_IDENTITY_INVALID_GENESIS_AUTHORITY",
        }
    }

    pub open spec fn message_text(&self) -> Seq<char> {
        match self {
            CoreIdentityError::InvalidName => "core identity validation failed: canonical name is invalid"@,
            CoreIdentityError::InvalidLine => "core identity validation failed: canonical line is invalid"@,
            CoreIdentityError::InvalidBlockFormat => "core identity validation failed: block format line is invalid"@,
            CoreIdentityError::InvalidGenesisAuthority => "core identity validation failed: genesis authority line is invalid"@,
        }
    }

    /// Human-readable description of the error.
    pub fn message(&self) -> (r: String)
        ensures
            r@ == self.message_text(),
    {
        match self {
            CoreIdentityError::InvalidName => str_to_string("core identity validation failed: canonical name is invalid"),
            CoreIdentityError::InvalidLine => str_to_string("core identity validation failed: canonical line is invalid"),
            CoreIdentityError::InvalidBlockFormat => str_to_string("core identity validation failed: block format line is invalid"),
            CoreIdentityError::InvalidGenesisAuthority => str_to_string(
                "core identity validation failed: genesis authority line is invalid",
            ),
        }
    }
}

/// The result of validating an identity: the first line, in the order name,
/// core line, block format, genesis authority, that differs from its
/// canonical value decides the error.
pub open spec fn identity_validation(id: CoreIdentity) -> Result<(), CoreIdentityError> {
    if id.name@ != AOXC_CANONICAL_CORE_NAME@ {
        Err(CoreIdentityError::InvalidName)
    } else if id.line@ != AOXC_CORE_LINE@ {
        Err(CoreIdentityError::InvalidLine)
    } else if id.block_format@ != AOXC_BLOCK_FORMAT_LINE@ {
        Err(CoreIdentityError::InvalidBlockFormat)
    } else if id.genesis_authority@ != AOXC_GENESIS_AUTH_LINE@ {
        Err(CoreIdentityError::InvalidGenesisAuthority)
    } else {
        Ok(())
    }
}

/// The bytes the commitment hashes: the domain, the schema version and the
/// four lines, separated by zero bytes.
pub open spec fn commitment_preimage(id: CoreIdentity) -> Seq<u8> {
    encode_utf8(AOXC_CORE_IDENTITY_DOMAIN@) + seq![0u8] + seq![AOXC_CORE_IDENTITY_SCHEMA_VERSION] + seq![0u8]
        + encode_utf8(id.name@) + seq![0u8] + encode_utf8(id.line@) + seq![0u8] + encode_utf8(
        id.block_format@,
    ) + seq![0u8] + encode_utf8(id.genesis_authority@)
}

/// The commitment of an identity.
pub open spec fn identity_commitment(id: CoreIdentity) -> Seq<u8> {
    sha3_256(commitment_preimage(id))
}

/// Whether the lines of an identity are exactly the canonical ones.
pub open spec fn is_canonical(id: CoreIdentity) -> bool {
    &&& id.name@ == AOXC_CANONICAL_CORE_NAME@
    &&& id.line@ == AOXC_CORE_LINE@
    &&& id.block_format@ == AOXC_BLOCK_FORMAT_LINE@
    &&& id.genesis_authority@ == AOXC_GENESIS_AUTH_LINE@
}

impl CoreIdentity {
    /// The schema generation of the identity contract.
    pub fn schema_version(&self) -> (r: u8)
        ensures
            r == AOXC_CORE_IDENTITY_SCHEMA_VERSION,
    {
        AOXC_CORE_IDENTITY_SCHEMA_VERSION
    }

    /// Whether the block format or the genesis authority line ends in
    /// `-draft`.
    pub fn is_draft_surface(&self) -> (r: bool)
        ensures
            r == (ends_with(self.block_format@, DRAFT_SUFFIX@) || ends_with(self.genesis_authority@, DRAFT_SUFFIX@)),
    {
        let suffix = chars_of(DRAFT_SUFFIX);
        let block = chars_of(self.block_format);
        if chars_end_with(&block, &suffix) {
            return true;
        }
        let genesis = chars_of(self.genesis_authority);
        chars_end_with(&genesis, &suffix)
    }

    /// Checks that every line equals its canonical value.
    pub fn validate(&self) -> (r: Result<(), CoreIdentityError>)
        ensures
            r == identity_validation(*self),
            r is Ok <==> is_canonical(*self),
    {
        if !str_eq(self.name, AOXC_CANONICAL_CORE_NAME) {
            return Err(CoreIdentityError::InvalidName);
        }
        if !str_eq(self.line, AOXC_CORE_LINE) {
            return Err(CoreIdentityError::InvalidLine);
        }
        if !str_eq(self.block_format, AOXC_BLOCK_FORMAT_LINE) {
            return Err(CoreIdentityError::InvalidBlockFormat);
        }
        if !str_eq(self.genesis_authority, AOXC_GENESIS_AUTH_LINE) {
            return Err(CoreIdentityError::InvalidGenesisAuthority);
        }
        Ok(())
    }

    /// SHA3-256 commitment over the whole public identity surface.
    pub fn commitment(&self) -> (r: [u8; 32])
        ensures
            r@ == identity_commitment(*self),
    {
        compute_core_identity_commitment(self)
    }

    /// The commitment in uppercase hexadecimal (64 characters).
    pub fn commitment_hex(&self) -> (r: String)
        ensures
            r@ == hex_upper(identity_commitment(*self)),
            r@.len() == 64,
    {
        let c = self.commitment();
        proof {
            lemma_hex_upper_len(c@);
        }
        encode_hex_upper(&c)
    }

    /// Short fingerprint: the first 8 commitment bytes in uppercase
    /// hexadecimal (16 characters).
    pub fn fingerprint(&self) -> (r: String)
        ensures
            r@ == hex_upper(identity_commitment(*self).take(8)),
            r@.len() == 16,
    {
        let c = self.commitment();
        proof {
            lemma_hex_upper_len(c@.take(8));
        }
        hex_upper_prefix(&c, 8)
    }
}

/// The canonical core identity.
pub fn core_identity() -> (r: CoreIdentity)
    ensures
        r.name@ == AOXC_CANONICAL_CORE_NAME@,
        r.line@ == AOXC_CORE_LINE@,
        r.block_format@ == AOXC_BLOCK_FORMAT_LINE@,
        r.genesis_authority@ == AOXC_GENESIS_AUTH_LINE@,
{
    CoreIdentity {
        name: AOXC_CANONICAL_CORE_NAME,
        line: AOXC_CORE_LINE,
        block_format: AOXC_BLOCK_FORMAT_LINE,
        genesis_authority: AOXC_GENESIS_AUTH_LINE,
    }
}

/// The commitment of an identity: SHA3-256 of `commitment_preimage`.
pub fn compute_core_identity_commitment(identity: &CoreIdentity) -> (r: [u8; 32])
    ensures
        r@ == identity_commitment(*identity),
{
    let mut m: Vec<u8> = Vec::new();
    push_str_bytes(&mut m, AOXC_CORE_IDENTITY_DOMAIN);
    m.push(0u8);
    m.push(AOXC_CORE_IDENTITY_SCHEMA_VERSION);
    m.push(0u8);
    push_str_bytes(&mut m, identity.name);
    m.push(0u8);
    push_str_bytes(&mut m, identity.line);
    m.push(0u8);
    push_str_bytes(&mut m, identity.block_format);
    m.push(0u8);
    push_str_bytes(&mut m, identity.genesis_authority);
    assert(m@ =~= commitment_preimage(*identity));
    sha3_256_digest(m.as_slice())
}

/// Validation accepts exactly the canonical identity: the identity returned
/// by `core_identity` validates, and any identity that validates has the
/// canonical lines, hence the canonical commitment.
pub proof fn law_validate_accepts_only_canonical(id: CoreIdentity, canonical: CoreIdentity)
    requires
        is_canonical(canonical),
    ensures
        identity_validation(canonical) is Ok,
        identity_validation(id) is Ok ==> identity_commitment(id) == identity_commitment(canonical),
{
}

} // verus!
