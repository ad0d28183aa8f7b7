//! Root-seed lifecycle: generation from operating-system randomness,
//! restoration from a recovery seed, the kind-bound master seed and an
//! operator-facing fingerprint.

use vstd::prelude::*;
use vstd::utf8::encode_utf8;

use crate::crypto::sha3_256;
use crate::crypto::sha3_256_digest;
use crate::crypto::sha3_512;
use crate::crypto::sha3_512_digest;
use crate::identity::key_engine::KeyEngine;
use crate::identity::key_engine::MASTER_SEED_LEN;
use crate::platform::os_random_32;
use crate::platform::unix_time_seconds;
use crate::text::chars_of;
use crate::text::decode_hex;
use crate::text::encode_hex_upper;
use crate::text::has_outer_ws;
use crate::text::hex_decode;
use crate::text::hex_upper;
use crate::text::hex_upper_prefix;
use crate::text::is_blank;
use crate::text::lemma_hex_upper_len;
use crate::text::lemma_hex_upper_roundtrip;
use crate::text::push_bytes;
use crate::text::push_str;
use crate::text::push_str_bytes;
use crate::text::str_to_string;
use crate::text::trim;

verus! {

/// Seed schema version.
pub const AOXC_SEED_VERSION: u8 = 1;

/// Recovery-seed length in bytes (256 bits).
pub const RECOVERY_SEED_LEN: usize = 32;

/// Fingerprint length in bytes (16 hexadecimal characters).
pub const SEED_FINGERPRINT_LEN: usize = 8;

/// Maximum accepted additional-entropy length, in bytes.
pub const MAX_ADDITIONAL_ENTROPY_LEN: usize = 4096;

pub const AOXC_SEED_GENERATION_DOMAIN: &'static str = "AOXC/IDENTITY/SEED/GENERATION/V1";

pub const AOXC_MASTER_SEED_DERIVATION_DOMAIN: &'static str = "AOXC/IDENTITY/SEED/MASTER/V1";

pub const AOXC_SEED_FINGERPRINT_DOMAIN: &'static str = "AOXC/IDENTITY/SEED/FINGERPRINT/V1";

/// Label mixed in before caller-supplied entropy.
pub const ADDITIONAL_ENTROPY_LABEL: &'static str = "ADDITIONAL_ENTROPY";

/// Custody domain of a root seed.
#[derive(Debug, Clone, Copy, PartialEq, Eq, Structural)]
pub enum SeedKind {
    WalletRoot,
    NodeRoot,
    TreasuryRoot,
    CaRoot,
}

impl SeedKind {
    pub open spec fn text(self) -> Seq<char> {
        match self {
            SeedKind::WalletRoot => "wallet-root"@,
            SeedKind::NodeRoot => "node-root"@,
            SeedKind::TreasuryRoot => "treasury-root"@,
            SeedKind::CaRoot => "ca-root"@,
        }
    }

    /// The kind's stable name.
    pub fn as_str(self) -> (r: &'static str)
        ensures
            r@ == self.text(),
    {
        match self {
            SeedKind::WalletRoot => "wallet-root",
            SeedKind::NodeRoot => "node-root",
            SeedKind::TreasuryRoot => "treasury-root",
            SeedKind::CaRoot => "ca-root",
        }
    }
}

/// Public, non-secret seed metadata.
#[derive(Debug, Clone, PartialEq, Eq)]
pub struct SeedMetadata {
    pub version: u8,
    pub kind: SeedKind,
    pub materialized_at: u64,
    pub fingerprint: String,
}

/// Seed errors.
#[derive(Debug, Clone, PartialEq, Eq, Structural)]
#[non_exhaustive]
pub enum SeedError {
    EntropyUnavailable,
    InvalidAdditionalEntropy,
    InvalidRecoverySeedLength,
    InvalidRecoverySeedHex,
    InvalidMaterializedAt,
    TimeError,
}

impl SeedError {
    pub open spec fn code_text(&self) -> Seq<char> {
        match self {
            SeedError::EntropyUnavailable => "SEED_ENTROPY_UNAVAILABLE"@,
            SeedError::InvalidAdditionalEntropy => "SEED_INVALID_ADDITIONAL_ENTROPY"@,
            SeedError::InvalidRecoverySeedLength => "SEED_INVALID_RECOVERY_SEED_LENGTH"@,
            SeedError::InvalidRecoverySeedHex => "SEED_INVALID_RECOVERY_SEED_HEX"@,
            SeedError::InvalidMaterializedAt => "SEED_INVALID_MATERIALIZED_AT"@,
            SeedError::TimeError => "SEED_TIME_ERROR"@,
        }
    }

    /// Stable symbolic error code for logs and telemetry.
    pub fn code(&self) -> (r: &'static str)
        ensures
            r@ == self.code_text(),
    {
        match self {
            SeedError::EntropyUnavailable => "SEED_ENTROPY_UNAVAILABLE",
            SeedError::InvalidAdditionalEntropy => "SEED_INVALID_ADDITIONAL_ENTROPY",
            SeedError::InvalidRecoverySeedLength => "SEED_INVALID_RECOVERY_SEED_LENGTH",
            SeedError::InvalidRecoverySeedHex => "SEED_INVALID_RECOVERY_SEED_HEX",
            SeedError::InvalidMaterializedAt => "SEED_INVALID_MATERIALIZED_AT",
            SeedError::TimeError => "SEED_TIME_ERROR",
        }
    }

    pub open spec fn message_text(&self) -> Seq<char> {
        match self {
            SeedError::EntropyUnavailable => "seed generation failed: operating-system entropy is unavailable"@,
            SeedError::InvalidAdditionalEntropy => "seed generation failed: additional entropy input is invalid"@,
            SeedError::InvalidRecoverySeedLength => "seed restore failed: recovery seed length is invalid"@,
            SeedError::InvalidRecoverySeedHex => "seed restore failed: recovery seed hex is invalid"@,
            SeedError::InvalidMaterializedAt => "seed lifecycle failed: materialized_at is invalid"@,
            SeedError::TimeError => "seed lifecycle failed: system time is invalid"@,
        }
    }

    /// Human-readable description of the error.
    pub fn message(&self) -> (r: String)
        ensures
            r@ == self.message_text(),
    {
        match self {
            SeedError::EntropyUnavailable => str_to_string("seed generation failed: operating-system entropy is unavailable"),
            SeedError::InvalidAdditionalEntropy => str_to_string("seed generation failed: additional entropy input is invalid"),
            SeedError::InvalidRecoverySeedLength => str_to_string("seed restore failed: recovery seed length is invalid"),
            SeedError::InvalidRecoverySeedHex => str_to_string("seed restore failed: recovery seed hex is invalid"),
            SeedError::InvalidMaterializedAt => str_to_string("seed lifecycle failed: materialized_at is invalid"),
            SeedError::TimeError => str_to_string("seed lifecycle failed: system time is invalid"),
        }
    }
}

// ---------------------------------------------------------------------------
// Derivations
// ---------------------------------------------------------------------------

/// The master seed: SHA3-512 of the domain, the kind and the recovery seed.
pub open spec fn master_seed_of(kind: SeedKind, recovery: Seq<u8>) -> Seq<u8> {
    sha3_512(encode_utf8(AOXC_MASTER_SEED_DERIVATION_DOMAIN@) + seq![0u8] + encode_utf8(kind.text())
        + seq![0u8] + recovery)
}

/// The fingerprint: the first 8 bytes of SHA3-256 over the domain, the kind
/// and the master seed, in uppercase hexadecimal.
pub open spec fn seed_fingerprint(kind: SeedKind, master: Seq<u8>) -> Seq<char> {
    hex_upper(sha3_256(encode_utf8(AOXC_SEED_FINGERPRINT_DOMAIN@) + seq![0u8] + encode_utf8(kind.text())
        + seq![0u8] + master).take(8))
}

/// The digest of caller-supplied entropy.
pub open spec fn additional_digest(extra: Seq<u8>) -> Seq<u8> {
    sha3_256(encode_utf8(AOXC_SEED_GENERATION_DOMAIN@) + seq![0u8] + encode_utf8(ADDITIONAL_ENTROPY_LABEL@)
        + seq![0u8] + extra)
}

/// The recovery seed mixed from kernel entropy and caller entropy.
pub open spec fn mixed_recovery_seed(kind: SeedKind, kernel: Seq<u8>, extra: Seq<u8>) -> Seq<u8> {
    sha3_256(encode_utf8(AOXC_SEED_GENERATION_DOMAIN@) + seq![0u8] + encode_utf8(kind.text()) + seq![0u8]
        + kernel + seq![0u8] + additional_digest(extra))
}

/// Why a recovery-seed hex text is refused, if it is.
pub open spec fn recovery_hex_error(encoded: Seq<char>) -> Option<SeedError> {
    if trim(encoded).len() == 0 || trim(encoded) != encoded || hex_decode(encoded) is None {
        Some(SeedError::InvalidRecoverySeedHex)
    } else if hex_decode(encoded).unwrap().len() != RECOVERY_SEED_LEN {
        Some(SeedError::InvalidRecoverySeedLength)
    } else {
        None
    }
}

/// Secret seed material with its public metadata.
pub struct GeneratedSeed {
    metadata: SeedMetadata,
    recovery_seed: [u8; RECOVERY_SEED_LEN],
    master_seed: [u8; MASTER_SEED_LEN],
}

impl GeneratedSeed {
    pub closed spec fn meta(&self) -> SeedMetadata {
        self.metadata
    }

    pub closed spec fn recovery(&self) -> Seq<u8> {
        self.recovery_seed@
    }

    pub closed spec fn master(&self) -> Seq<u8> {
        self.master_seed@
    }

    /// The seed restored from `recovery` for `kind` at time `t`.
    pub open spec fn restored_from(&self, kind: SeedKind, recovery: Seq<u8>, t: u64) -> bool {
        &&& self.recovery() == recovery
        &&& self.master() == master_seed_of(kind, recovery)
        &&& self.meta().version == AOXC_SEED_VERSION
        &&& self.meta().kind == kind
        &&& self.meta().materialized_at == t
        &&& self.meta().fingerprint@ == seed_fingerprint(kind, master_seed_of(kind, recovery))
    }

    /// The seed restored from `recovery` for `kind` at some non-zero time
    /// (the time read from the clock).
    pub open spec fn restored_at_some_time(&self, kind: SeedKind, recovery: Seq<u8>) -> bool {
        exists|t: u64| t != 0 && #[trigger] self.restored_from(kind, recovery, t)
    }

    /// Restores a seed at an explicit, non-zero timestamp.
    pub fn from_recovery_seed_at(kind: SeedKind, recovery_seed: [u8; RECOVERY_SEED_LEN], materialized_at: u64) -> (r:
        Result<Self, SeedError>)
        ensures
            match r {
                Ok(s) => materialized_at != 0 && s.restored_from(kind, recovery_seed@, materialized_at),
                Err(e) => materialized_at == 0 && e == SeedError::InvalidMaterializedAt,
            },
    {
        if materialized_at == 0 {
            return Err(SeedError::InvalidMaterializedAt);
        }
        let master_seed = derive_master_seed(kind, &recovery_seed);
        let fingerprint = compute_seed_fingerprint(kind, &master_seed);
        Ok(GeneratedSeed {
            metadata: SeedMetadata { version: AOXC_SEED_VERSION, kind, materialized_at, fingerprint },
            recovery_seed,
            master_seed,
        })
    }

    /// Restores a seed at the current time: fails with `TimeError` when the
    /// clock is unusable, otherwise as `from_recovery_seed_at` at the time
    /// read.
    pub fn from_recovery_seed(kind: SeedKind, recovery_seed: [u8; RECOVERY_SEED_LEN]) -> (r: Result<
        Self,
        SeedError,
    >)
        ensures
            match r {
                Ok(s) => s.restored_at_some_time(kind, recovery_seed@),
                Err(e) => e == SeedError::TimeError || e == SeedError::InvalidMaterializedAt,
            },
    {
        let now = match unix_time_seconds() {
            Some(t) => t,
            None => return Err(SeedError::TimeError),
        };
        Self::from_recovery_seed_at(kind, recovery_seed, now)
    }

    /// Restores a seed from a byte slice, which must hold exactly
    /// `RECOVERY_SEED_LEN` bytes.
    pub fn from_recovery_seed_bytes(kind: SeedKind, recovery_seed: &[u8]) -> (r: Result<Self, SeedError>)
        ensures
            match r {
                Ok(s) => recovery_seed@.len() == RECOVERY_SEED_LEN && s.restored_at_some_time(kind, recovery_seed@),
                Err(e) => if recovery_seed@.len() != RECOVERY_SEED_LEN {
                    e == SeedError::InvalidRecoverySeedLength
                } else {
                    e == SeedError::TimeError || e == SeedError::InvalidMaterializedAt
                },
            },
    {
        if recovery_seed.len() != RECOVERY_SEED_LEN {
            return Err(SeedError::InvalidRecoverySeedLength);
        }
        let mut out = [0u8; RECOVERY_SEED_LEN];
        let mut i: usize = 0;
        while i < RECOVERY_SEED_LEN
            invariant
                recovery_seed@.len() == RECOVERY_SEED_LEN,
                i <= RECOVERY_SEED_LEN,
                forall|j: int| 0 <= j < i ==> out@[j] == recovery_seed@[j],
            decreases RECOVERY_SEED_LEN - i,
        {
            out[i] = recovery_seed[i];
            i += 1;
        }
        assert(out@ =~= recovery_seed@);
        Self::from_recovery_seed(kind, out)
    }

    /// Restores a seed from hexadecimal text (either case, exactly
    /// `2 * RECOVERY_SEED_LEN` digits, no outer whitespace).
    pub fn from_recovery_seed_hex(kind: SeedKind, encoded: &str) -> (r: Result<Self, SeedError>)
        ensures
            match r {
                Ok(s) => recovery_hex_error(encoded@) is None && s.restored_at_some_time(
                    kind,
                    hex_decode(encoded@).unwrap(),
                ),
                Err(e) => match recovery_hex_error(encoded@) {
                    Some(x) => e == x,
                    None => e == SeedError::TimeError || e == SeedError::InvalidMaterializedAt,
                },
            },
    {
        let cs = chars_of(encoded);
        if is_blank(&cs) || has_outer_ws(&cs) {
            return Err(SeedError::InvalidRecoverySeedHex);
        }
        match decode_hex(&cs) {
            None => Err(SeedError::InvalidRecoverySeedHex),
            Some(bytes) => Self::from_recovery_seed_bytes(kind, bytes.as_slice()),
        }
    }

    /// The public metadata.
    pub fn metadata(&self) -> (r: &SeedMetadata)
        ensures
            *r == self.meta(),
    {
        &self.metadata
    }

    /// The recovery seed (the user's backup secret).
    pub fn recovery_seed(&self) -> (r: &[u8; RECOVERY_SEED_LEN])
        ensures
            r@ == self.recovery(),
    {
        &self.recovery_seed
    }

    /// The internal master seed.
    pub fn master_seed(&self) -> (r: &[u8; MASTER_SEED_LEN])
        ensures
            r@ == self.master(),
    {
        &self.master_seed
    }

    /// The recovery seed in uppercase hexadecimal.
    pub fn recovery_seed_hex(&self) -> (r: String)
        ensures
            r@ == hex_upper(self.recovery()),
    {
        encode_hex_upper(&self.recovery_seed)
    }

    /// The master seed in uppercase hexadecimal.
    pub fn master_seed_hex(&self) -> (r: String)
        ensures
            r@ == hex_upper(self.master()),
    {
        encode_hex_upper(&self.master_seed)
    }

    /// A key engine over the master seed.
    pub fn to_key_engine(&self) -> (r: KeyEngine)
        ensures
            r.seed() == self.master(),
    {
        KeyEngine::from_seed(self.master_seed)
    }
}

/// The hexadecimal form of a recovery seed is accepted by
/// `from_recovery_seed_hex` and decodes back to the same seed.
pub proof fn law_recovery_hex_roundtrip(recovery: Seq<u8>)
    requires
        recovery.len() == RECOVERY_SEED_LEN,
    ensures
        recovery_hex_error(hex_upper(recovery)) is None,
        hex_decode(hex_upper(recovery)) == Some(recovery),
{
    lemma_hex_upper_roundtrip(recovery);
    lemma_hex_upper_len(recovery);
    crate::text::lemma_trim_empty(hex_upper(recovery));
    assert(!crate::text::is_ws(hex_upper(recovery)[0])) by {
        crate::text::lemma_hex_upper_chars(recovery);
    }
}

fn derive_master_seed(kind: SeedKind, recovery_seed: &[u8; RECOVERY_SEED_LEN]) -> (r: [u8; MASTER_SEED_LEN])
    ensures
        r@ == master_seed_of(kind, recovery_seed@),
{
    let mut m: Vec<u8> = Vec::new();
    push_str_bytes(&mut m, AOXC_MASTER_SEED_DERIVATION_DOMAIN);
    m.push(0u8);
    push_str_bytes(&mut m, kind.as_str());
    m.push(0u8);
    push_bytes(&mut m, recovery_seed);
    assert(m@ =~= encode_utf8(AOXC_MASTER_SEED_DERIVATION_DOMAIN@) + seq![0u8] + encode_utf8(kind.text())
        + seq![0u8] + recovery_seed@);
    sha3_512_digest(m.as_slice())
}

fn compute_seed_fingerprint(kind: SeedKind, master_seed: &[u8; MASTER_SEED_LEN]) -> (r: String)
    ensures
        r@ == seed_fingerprint(kind, master_seed@),
{
    let mut m: Vec<u8> = Vec::new();
    push_str_bytes(&mut m, AOXC_SEED_FINGERPRINT_DOMAIN);
    m.push(0u8);
    push_str_bytes(&mut m, kind.as_str());
    m.push(0u8);
    push_bytes(&mut m, master_seed);
    assert(m@ =~= encode_utf8(AOXC_SEED_FINGERPRINT_DOMAIN@) + seq![0u8] + encode_utf8(kind.text())
        + seq![0u8] + master_seed@);
    let digest = sha3_256_digest(m.as_slice());
    hex_upper_prefix(&digest, SEED_FINGERPRINT_LEN)
}

fn digest_additional_entropy(additional_entropy: &[u8]) -> (r: [u8; RECOVERY_SEED_LEN])
    ensures
        r@ == additional_digest(additional_entropy@),
{
    let mut m: Vec<u8> = Vec::new();
    push_str_bytes(&mut m, AOXC_SEED_GENERATION_DOMAIN);
    m.push(0u8);
    push_str_bytes(&mut m, ADDITIONAL_ENTROPY_LABEL);
    m.push(0u8);
    push_bytes(&mut m, additional_entropy);
    assert(m@ =~= encode_utf8(AOXC_SEED_GENERATION_DOMAIN@) + seq![0u8] + encode_utf8(
        ADDITIONAL_ENTROPY_LABEL@,
    ) + seq![0u8] + additional_entropy@);
    sha3_256_digest(m.as_slice())
}

impl GeneratedSeed {
    /// Generates a seed from operating-system randomness (see
    /// `generate_seed`).
    pub fn generate(kind: SeedKind) -> (r: Result<GeneratedSeed, SeedError>)
        ensures
            match r {
                Ok(s) => exists|t: u64, kernel: Seq<u8>|
                    t != 0 && kernel.len() == RECOVERY_SEED_LEN && s.restored_from(kind, kernel, t),
                Err(e) => e == SeedError::TimeError || e == SeedError::EntropyUnavailable || e
                    == SeedError::InvalidMaterializedAt,
            },
    {
        generate_seed(kind)
    }

    /// Generates a seed mixing caller-supplied entropy into the random
    /// bytes (see `generate_seed_with_additional_entropy`).
    pub fn generate_with_additional_entropy(kind: SeedKind, additional_entropy: &[u8]) -> (r: Result<
        GeneratedSeed,
        SeedError,
    >)
        ensures
            match r {
                Ok(s) => 0 < additional_entropy@.len() <= MAX_ADDITIONAL_ENTROPY_LEN && exists|
                    t: u64,
                    kernel: Seq<u8>,
                |
                    t != 0 && kernel.len() == RECOVERY_SEED_LEN && s.restored_from(
                        kind,
                        mixed_recovery_seed(kind, kernel, additional_entropy@),
                        t,
                    ),
                Err(e) => if additional_entropy@.len() == 0 || additional_entropy@.len()
                    > MAX_ADDITIONAL_ENTROPY_LEN {
                    e == SeedError::InvalidAdditionalEntropy
                } else {
                    e == SeedError::TimeError || e == SeedError::EntropyUnavailable || e
                        == SeedError::InvalidMaterializedAt
                },
            },
    {
        generate_seed_with_additional_entropy(kind, additional_entropy)
    }
}

/// Generates a seed from operating-system randomness at the current time.
/// The clock is read first (`TimeError`), then the entropy
/// (`EntropyUnavailable`); the seed is restored from the 32 random bytes.
pub fn generate_seed(kind: SeedKind) -> (r: Result<GeneratedSeed, SeedError>)
    ensures
        match r {
            Ok(s) => exists|t: u64, kernel: Seq<u8>|
                t != 0 && kernel.len() == RECOVERY_SEED_LEN && s.restored_from(kind, kernel, t),
            Err(e) => e == SeedError::TimeError || e == SeedError::EntropyUnavailable || e
                == SeedError::InvalidMaterializedAt,
        },
{
    let now = match unix_time_seconds() {
        Some(t) => t,
        None => return Err(SeedError::TimeError),
    };
    let kernel = match os_random_32() {
        Some(k) => k,
        None => return Err(SeedError::EntropyUnavailable),
    };
    GeneratedSeed::from_recovery_seed_at(kind, kernel, now)
}

/// Generates a seed whose recovery seed mixes 32 random bytes with a digest
/// of caller-supplied entropy (1 to `MAX_ADDITIONAL_ENTROPY_LEN` bytes).
pub fn generate_seed_with_additional_entropy(kind: SeedKind, additional_entropy: &[u8]) -> (r: Result<
    GeneratedSeed,
    SeedError,
>)
    ensures
        match r {
            Ok(s) => 0 < additional_entropy@.len() <= MAX_ADDITIONAL_ENTROPY_LEN && exists|
                t: u64,
                kernel: Seq<u8>,
            |
                t != 0 && kernel.len() == RECOVERY_SEED_LEN && s.restored_from(
                    kind,
                    mixed_recovery_seed(kind, kernel, additional_entropy@),
                    t,
                ),
            Err(e) => if additional_entropy@.len() == 0 || additional_entropy@.len()
                > MAX_ADDITIONAL_ENTROPY_LEN {
                e == SeedError::InvalidAdditionalEntropy
            } else {
                e == SeedError::TimeError || e == SeedError::EntropyUnavailable || e
                    == SeedError::InvalidMaterializedAt
            },
        },
{
    if additional_entropy.len() == 0 || additional_entropy.len() > MAX_ADDITIONAL_ENTROPY_LEN {
        return Err(SeedError::InvalidAdditionalEntropy);
    }
    let now = match unix_time_seconds() {
        Some(t) => t,
        None => return Err(SeedError::TimeError),
    };
    let kernel = match os_random_32() {
        Some(k) => k,
        None => return Err(SeedError::EntropyUnavailable),
    };
    let extra = digest_additional_entropy(additional_entropy);
    let mut m: Vec<u8> = Vec::new();
    push_str_bytes(&mut m, AOXC_SEED_GENERATION_DOMAIN);
    m.push(0u8);
    push_str_bytes(&mut m, kind.as_str());
    m.push(0u8);
    push_bytes(&mut m, &kernel);
    m.push(0u8);
    push_bytes(&mut m, &extra);
    assert(m@ =~= encode_utf8(AOXC_SEED_GENERATION_DOMAIN@) + seq![0u8] + encode_utf8(kind.text())
        + seq![0u8] + kernel@ + seq![0u8] + additional_digest(additional_entropy@));
    let recovery = sha3_256_digest(m.as_slice());
    let r = GeneratedSeed::from_recovery_seed_at(kind, recovery, now);
    proof {
        if r is Ok {
            let s = r->Ok_0;
            assert(recovery@ == mixed_recovery_seed(kind, kernel@, additional_entropy@));
            assert(s.restored_from(kind, mixed_recovery_seed(kind, kernel@, additional_entropy@), now));
        }
    }
    r
}

} // verus!
