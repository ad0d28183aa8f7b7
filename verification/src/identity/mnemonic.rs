//! Human backup of a recovery seed as a 24-word English BIP-39 phrase, and
//! restoration of the seed from such a phrase.

use vstd::prelude::*;

use crate::crypto::bip39_decode;
use crate::crypto::bip39_decode_english;
use crate::crypto::bip39_encode;
use crate::crypto::bip39_encode_english;
use crate::identity::seed::generate_seed;
use crate::identity::seed::generate_seed_with_additional_entropy;
use crate::identity::seed::master_seed_of;
use crate::identity::seed::mixed_recovery_seed;
use crate::identity::seed::seed_fingerprint;
use crate::identity::seed::GeneratedSeed;
use crate::identity::seed::SeedError;
use crate::identity::seed::SeedKind;
use crate::identity::seed::MAX_ADDITIONAL_ENTROPY_LEN;
use crate::identity::seed::RECOVERY_SEED_LEN;
use crate::text::all_chars;
use crate::text::chars_of;
use crate::text::has_outer_ws;
use crate::text::is_ascii_lower;
use crate::text::is_blank;
use crate::text::is_ws;
use crate::text::lemma_trim_empty;
use crate::text::lemma_trim_fixed;
use crate::text::push_str;
use crate::text::split_at_char;
use crate::text::split_on;
use crate::text::str_eq;
use crate::text::str_to_string;
use crate::text::string_from_chars;
use crate::text::trim;

verus! {

/// Mnemonic schema version.
pub const AOXC_MNEMONIC_VERSION: u8 = 1;

/// The one mnemonic language.
pub const AOXC_MNEMONIC_LANGUAGE: &'static str = "english";

/// Words in a phrase (a 32-byte recovery seed).
pub const AOXC_MNEMONIC_WORD_COUNT: usize = 24;

/// Public, non-secret mnemonic metadata.
#[derive(Debug, Clone, PartialEq, Eq)]
pub struct MnemonicMetadata {
    pub version: u8,
    pub kind: SeedKind,
    pub language: String,
    pub word_count: u8,
    pub fingerprint: String,
}

/// A mnemonic phrase with its metadata.
#[derive(Clone)]
pub struct MnemonicBackup {
    metadata: MnemonicMetadata,
    phrase: String,
}

/// Mnemonic errors.
#[derive(Debug, Clone, PartialEq, Eq, Structural)]
#[non_exhaustive]
pub enum MnemonicError {
    EmptyPhrase,
    InvalidPhrase,
    InvalidWordCount,
    InvalidEntropyLength,
    FingerprintMismatch,
    Seed(SeedError),
}

impl MnemonicError {
    pub open spec fn code_text(&self) -> Seq<char> {
        match self {
            MnemonicError::EmptyPhrase => "MNEMONIC_EMPTY_PHRASE"@,
            MnemonicError::InvalidPhrase => "MNEMONIC_INVALID_PHRASE"@,
            MnemonicError::InvalidWordCount => "MNEMONIC_INVALID_WORD_COUNT"@,
            MnemonicError::InvalidEntropyLength => "MNEMONIC_INVALID_ENTROPY_LENGTH"@,
            MnemonicError::FingerprintMismatch => "MNEMONIC_FINGERPRINT_MISMATCH"@,
            MnemonicError::Seed(_) => "MNEMONIC_SEED_ERROR"@,
        }
    }

    /// Stable symbolic error code for logs and telemetry.
    pub fn code(&self) -> (r: &'static str)
        ensures
            r@ == self.code_text(),
    {
        match self {
            MnemonicError::EmptyPhrase => "MNEMONIC_EMPTY_PHRASE",
            MnemonicError::InvalidPhrase => "MNEMONIC_INVALID_PHRASE",
            MnemonicError::InvalidWordCount => "MNEMONIC_INVALID_WORD_COUNT",
            MnemonicError::InvalidEntropyLength => "MNEMONIC_INVALID_ENTROPY_LENGTH",
            MnemonicError::FingerprintMismatch => "MNEMONIC_FINGERPRINT_MISMATCH",
            MnemonicError::Seed(_) => "MNEMONIC_SEED_ERROR",
        }
    }

    pub open spec fn message_text(&self) -> Seq<char> {
        match self {
            MnemonicError::EmptyPhrase => "mnemonic restore failed: phrase is empty"@,
            MnemonicError::InvalidPhrase => "mnemonic restore failed: phrase is invalid"@,
            MnemonicError::InvalidWordCount => "mnemonic restore failed: word count is invalid"@,
            MnemonicError::InvalidEntropyLength => "mnemonic restore failed: decoded entropy length is invalid"@,
            MnemonicError::FingerprintMismatch => "mnemonic validation failed: fingerprint mismatch"@,
            MnemonicError::Seed(e) => "mnemonic restore failed: "@ + e.message_text(),
        }
    }

    /// Human-readable description of the error.
    pub fn message(&self) -> (r: String)
        ensures
            r@ == self.message_text(),
    {
        match self {
            MnemonicError::EmptyPhrase => str_to_string("mnemonic restore failed: phrase is empty"),
            MnemonicError::InvalidPhrase => str_to_string("mnemonic restore failed: phrase is invalid"),
            MnemonicError::InvalidWordCount => str_to_string("mnemonic restore failed: word count is invalid"),
            MnemonicError::InvalidEntropyLength => str_to_string("mnemonic restore failed: decoded entropy length is invalid"),
            MnemonicError::FingerprintMismatch => str_to_string("mnemonic validation failed: fingerprint mismatch"),
            MnemonicError::Seed(e) => {
                let inner = e.message();
                let mut out: Vec<char> = Vec::new();
                push_str(&mut out, "mnemonic restore failed: ");
                push_str(&mut out, inner.as_str());
                string_from_chars(&out)
            },
        }
    }
}

// ---------------------------------------------------------------------------
// Phrase rules
// ---------------------------------------------------------------------------

/// The outer shape of a phrase: non-blank, no outer whitespace, exactly 24
/// words separated by single spaces.
pub open spec fn surface_error(p: Seq<char>) -> Option<MnemonicError> {
    if trim(p).len() == 0 {
        Some(MnemonicError::EmptyPhrase)
    } else if trim(p) != p {
        Some(MnemonicError::InvalidPhrase)
    } else if split_on(p, ' ').len() != AOXC_MNEMONIC_WORD_COUNT {
        Some(MnemonicError::InvalidWordCount)
    } else if exists|i: int| 0 <= i < split_on(p, ' ').len() && (#[trigger] split_on(p, ' ')[i]).len() == 0 {
        Some(MnemonicError::InvalidPhrase)
    } else {
        None
    }
}

/// Why a phrase does not describe a recovery seed, if it does not: its
/// shape, then BIP-39 parsing, the word count and the entropy length.
pub open spec fn phrase_error(p: Seq<char>) -> Option<MnemonicError> {
    if surface_error(p) is Some {
        surface_error(p)
    } else if bip39_decode(p) is None {
        Some(MnemonicError::InvalidPhrase)
    } else if bip39_decode(p).unwrap().1 != AOXC_MNEMONIC_WORD_COUNT {
        Some(MnemonicError::InvalidWordCount)
    } else if bip39_decode(p).unwrap().0.len() != RECOVERY_SEED_LEN {
        Some(MnemonicError::InvalidEntropyLength)
    } else {
        None
    }
}

/// The recovery seed a valid phrase describes.
pub open spec fn phrase_entropy(p: Seq<char>) -> Seq<u8> {
    bip39_decode(p).unwrap().0
}

/// A failure of the clock while restoring (reported through `Seed`).
pub open spec fn is_clock_failure(e: MnemonicError) -> bool {
    e == MnemonicError::Seed(SeedError::TimeError) || e == MnemonicError::Seed(
        SeedError::InvalidMaterializedAt,
    )
}

fn validate_phrase_surface(phrase: &str) -> (r: Result<(), MnemonicError>)
    ensures
        r == match surface_error(phrase@) {
            Some(e) => Err(e),
            None => Ok(()),
        },
{
    let cs = chars_of(phrase);
    if is_blank(&cs) {
        return Err(MnemonicError::EmptyPhrase);
    }
    if has_outer_ws(&cs) {
        return Err(MnemonicError::InvalidPhrase);
    }
    let words = split_at_char(&cs, ' ');
    let ghost parts = split_on(cs@, ' ');
    assert(words@.len() == parts.len());
    if words.len() != AOXC_MNEMONIC_WORD_COUNT {
        return Err(MnemonicError::InvalidWordCount);
    }
    let mut i: usize = 0;
    while i < words.len()
        invariant
            parts == split_on(phrase@, ' '),
            trim(phrase@).len() != 0,
            trim(phrase@) == phrase@,
            parts.len() == AOXC_MNEMONIC_WORD_COUNT,
            words@.map_values(|v: Vec<char>| v@) == parts,
            words@.len() == parts.len(),
            i <= words@.len(),
            forall|j: int| 0 <= j < i ==> (#[trigger] parts[j]).len() > 0,
        decreases words@.len() - i,
    {
        assert(parts[i as int] == words@[i as int]@);
        if words[i].len() == 0 {
            assert(split_on(phrase@, ' ')[i as int].len() == 0);
            return Err(MnemonicError::InvalidPhrase);
        }
        i += 1;
    }
    Ok(())
}

/// The 24-word English phrase of a recovery seed. It always exists, is
/// accepted by `restore_seed_from_phrase`, and decodes back to the seed.
pub fn encode_recovery_seed_as_phrase(recovery_seed: &[u8; RECOVERY_SEED_LEN]) -> (r: Result<
    String,
    MnemonicError,
>)
    ensures
        r is Ok,
        r matches Ok(p) ==> bip39_encode(recovery_seed@) == Some((p@, AOXC_MNEMONIC_WORD_COUNT as nat))
            && phrase_error(p@) is None && phrase_entropy(p@) == recovery_seed@,
{
    let (phrase, words) = match bip39_encode_english(recovery_seed) {
        Some(x) => x,
        None => return Err(MnemonicError::InvalidEntropyLength),
    };
    if words != AOXC_MNEMONIC_WORD_COUNT {
        return Err(MnemonicError::InvalidWordCount);
    }
    proof {
        lemma_encoded_surface(phrase@);
    }
    Ok(phrase)
}

/// A phrase of non-empty words of lowercase letters joined by single spaces
/// has a valid surface when it has 24 words.
proof fn lemma_encoded_surface(p: Seq<char>)
    requires
        all_chars(p, |c: char| is_ascii_lower(c) || c == ' '),
        split_on(p, ' ').len() == AOXC_MNEMONIC_WORD_COUNT,
        forall|i: int| 0 <= i < split_on(p, ' ').len() ==> (#[trigger] split_on(p, ' ')[i]).len() > 0,
    ensures
        surface_error(p) is None,
{
    lemma_split_ends(p);
    lemma_trim_fixed(p);
    lemma_trim_empty(p);
    assert(is_ascii_lower(p[0]) || p[0] == ' ');
    assert(is_ascii_lower(p.last()) || p.last() == ' ');
    assert(!is_ws(p[0]));
}

/// When every piece of a split is non-empty, the text is non-empty and
/// neither starts nor ends with the separator.
proof fn lemma_split_ends(p: Seq<char>)
    requires
        forall|i: int| 0 <= i < split_on(p, ' ').len() ==> (#[trigger] split_on(p, ' ')[i]).len() > 0,
    ensures
        p.len() > 0,
        p[0] != ' ',
        p.last() != ' ',
{
    lemma_split_len_pos(p);
    if p.len() == 0 {
        assert(split_on(p, ' ')[0].len() == 0);
    } else {
        if p.last() == ' ' {
            let prev = split_on(p.drop_last(), ' ');
            lemma_split_len_pos(p.drop_last());
            assert(split_on(p, ' ')[prev.len() as int].len() == 0);
        }
        if p[0] == ' ' {
            lemma_split_first(p);
        }
    }
}

proof fn lemma_split_len_pos(p: Seq<char>)
    ensures
        split_on(p, ' ').len() > 0,
    decreases p.len(),
{
    if p.len() > 0 {
        lemma_split_len_pos(p.drop_last());
    }
}

/// A text that starts with the separator splits into at least two pieces,
/// the first of them empty.
proof fn lemma_split_first(p: Seq<char>)
    requires
        p.len() > 0,
        p[0] == ' ',
    ensures
        split_on(p, ' ').len() >= 2,
        split_on(p, ' ')[0].len() == 0,
    decreases p.len(),
{
    if p.len() == 1 {
        assert(p.drop_last() =~= Seq::<char>::empty());
        assert(p.last() == ' ');
    } else {
        assert(p.drop_last()[0] == ' ');
        lemma_split_first(p.drop_last());
    }
}

/// Restores a seed from a phrase: the phrase rules first, then the seed is
/// restored from the phrase's entropy at the current time.
pub fn restore_seed_from_phrase(kind: SeedKind, phrase: &str) -> (r: Result<GeneratedSeed, MnemonicError>)
    ensures
        match r {
            Ok(s) => phrase_error(phrase@) is None && s.restored_at_some_time(kind, phrase_entropy(phrase@)),
            Err(e) => match phrase_error(phrase@) {
                Some(x) => e == x,
                None => is_clock_failure(e),
            },
        },
{
    if let Err(e) = validate_phrase_surface(phrase) {
        return Err(e);
    }
    let (entropy, words) = match bip39_decode_english(phrase) {
        Some(x) => x,
        None => return Err(MnemonicError::InvalidPhrase),
    };
    if words != AOXC_MNEMONIC_WORD_COUNT {
        return Err(MnemonicError::InvalidWordCount);
    }
    if entropy.len() != RECOVERY_SEED_LEN {
        return Err(MnemonicError::InvalidEntropyLength);
    }
    let mut recovery_seed = [0u8; RECOVERY_SEED_LEN];
    let mut i: usize = 0;
    while i < RECOVERY_SEED_LEN
        invariant
            entropy@.len() == RECOVERY_SEED_LEN,
            i <= RECOVERY_SEED_LEN,
            forall|j: int| 0 <= j < i ==> recovery_seed@[j] == entropy@[j],
        decreases RECOVERY_SEED_LEN - i,
    {
        recovery_seed[i] = entropy[i];
        i += 1;
    }
    assert(recovery_seed@ =~= entropy@);
    assert(phrase_entropy(phrase@) == recovery_seed@);
    assert(phrase_error(phrase@) is None);
    let seed = match GeneratedSeed::from_recovery_seed(kind, recovery_seed) {
        Ok(s) => s,
        Err(e) => return Err(MnemonicError::Seed(e)),
    };
    Ok(seed)
}

impl MnemonicBackup {
    pub closed spec fn meta(&self) -> MnemonicMetadata {
        self.metadata
    }

    pub closed spec fn phrase_text(&self) -> Seq<char> {
        self.phrase@
    }

    /// The backup of a seed: its phrase, and metadata carrying the seed's
    /// kind and fingerprint.
    pub open spec fn backs_up(&self, seed: GeneratedSeed) -> bool {
        &&& bip39_encode(seed.recovery()) == Some((self.phrase_text(), AOXC_MNEMONIC_WORD_COUNT as nat))
        &&& phrase_error(self.phrase_text()) is None
        &&& phrase_entropy(self.phrase_text()) == seed.recovery()
        &&& self.meta().version == AOXC_MNEMONIC_VERSION
        &&& self.meta().kind == seed.meta().kind
        &&& self.meta().language@ == AOXC_MNEMONIC_LANGUAGE@
        &&& self.meta().word_count == AOXC_MNEMONIC_WORD_COUNT
        &&& self.meta().fingerprint == seed.meta().fingerprint
    }

    /// The backup of an existing seed (never fails).
    pub fn from_generated_seed(seed: &GeneratedSeed) -> (r: Result<Self, MnemonicError>)
        ensures
            r matches Ok(b) && b.backs_up(*seed),
    {
        let phrase = match encode_recovery_seed_as_phrase(seed.recovery_seed()) {
            Ok(p) => p,
            Err(e) => return Err(e),
        };
        let meta = seed.metadata();
        Ok(MnemonicBackup {
            metadata: MnemonicMetadata {
                version: AOXC_MNEMONIC_VERSION,
                kind: meta.kind,
                language: str_to_string(AOXC_MNEMONIC_LANGUAGE),
                word_count: 24u8,
                fingerprint: meta.fingerprint.clone(),
            },
            phrase,
        })
    }

    /// The backup of a recovery seed restored at the current time.
    pub fn from_recovery_seed(kind: SeedKind, recovery_seed: &[u8; RECOVERY_SEED_LEN]) -> (r: Result<
        Self,
        MnemonicError,
    >)
        ensures
            match r {
                Ok(b) => exists|s: GeneratedSeed| #[trigger] s.restored_at_some_time(kind, recovery_seed@) && b.backs_up(s),
                Err(e) => is_clock_failure(e),
            },
    {
        let seed = match GeneratedSeed::from_recovery_seed(kind, *recovery_seed) {
            Ok(s) => s,
            Err(e) => return Err(MnemonicError::Seed(e)),
        };
        Self::from_generated_seed(&seed)
    }

    /// The canonical backup of a phrase: the phrase is restored into a seed
    /// and re-encoded.
    pub fn from_phrase(kind: SeedKind, phrase: &str) -> (r: Result<Self, MnemonicError>)
        ensures
            match r {
                Ok(b) => phrase_error(phrase@) is None && exists|s: GeneratedSeed|
                    #[trigger] s.restored_at_some_time(kind, phrase_entropy(phrase@)) && b.backs_up(s),
                Err(e) => match phrase_error(phrase@) {
                    Some(x) => e == x,
                    None => is_clock_failure(e),
                },
            },
    {
        let seed = match restore_seed_from_phrase(kind, phrase) {
            Ok(s) => s,
            Err(e) => return Err(e),
        };
        Self::from_generated_seed(&seed)
    }

    /// A backup assembled from stored metadata and phrase, as read back
    /// from storage; `validate` checks it.
    pub fn from_parts(metadata: MnemonicMetadata, phrase: String) -> (r: Self)
        ensures
            r.meta() == metadata,
            r.phrase_text() == phrase@,
    {
        MnemonicBackup { metadata, phrase }
    }

    /// The public metadata.
    pub fn metadata(&self) -> (r: &MnemonicMetadata)
        ensures
            *r == self.meta(),
    {
        &self.metadata
    }

    /// The phrase (secret).
    pub fn phrase(&self) -> (r: &str)
        ensures
            r@ == self.phrase_text(),
    {
        self.phrase.as_str()
    }

    /// The checks before restoring: version, language, word count and the
    /// phrase rules.
    pub open spec fn pre_restore_error(&self) -> Option<MnemonicError> {
        if self.meta().version != AOXC_MNEMONIC_VERSION || self.meta().language@ != AOXC_MNEMONIC_LANGUAGE@ {
            Some(MnemonicError::InvalidPhrase)
        } else if self.meta().word_count != AOXC_MNEMONIC_WORD_COUNT {
            Some(MnemonicError::InvalidWordCount)
        } else {
            phrase_error(self.phrase_text())
        }
    }

    /// Validates the backup: the checks before restoring, then that the
    /// restored seed's fingerprint is the recorded one.
    pub fn validate(&self) -> (r: Result<(), MnemonicError>)
        ensures
            match r {
                Ok(()) => self.pre_restore_error() is None && self.meta().fingerprint@ == seed_fingerprint(
                    self.meta().kind,
                    master_seed_of(self.meta().kind, phrase_entropy(self.phrase_text())),
                ),
                Err(e) => match self.pre_restore_error() {
                    Some(x) => e == x,
                    None => is_clock_failure(e) || (e == MnemonicError::FingerprintMismatch
                        && self.meta().fingerprint@ != seed_fingerprint(
                        self.meta().kind,
                        master_seed_of(self.meta().kind, phrase_entropy(self.phrase_text())),
                    )),
                },
            },
    {
        if self.metadata.version != AOXC_MNEMONIC_VERSION {
            return Err(MnemonicError::InvalidPhrase);
        }
        if !str_eq(self.metadata.language.as_str(), AOXC_MNEMONIC_LANGUAGE) {
            return Err(MnemonicError::InvalidPhrase);
        }
        if self.metadata.word_count as usize != AOXC_MNEMONIC_WORD_COUNT {
            return Err(MnemonicError::InvalidWordCount);
        }
        let restored = match restore_seed_from_phrase(self.metadata.kind, self.phrase.as_str()) {
            Ok(s) => s,
            Err(e) => return Err(e),
        };
        if restored.metadata().fingerprint != self.metadata.fingerprint {
            return Err(MnemonicError::FingerprintMismatch);
        }
        Ok(())
    }

    /// Restores the seed from the phrase at the current time.
    pub fn restore_seed(&self) -> (r: Result<GeneratedSeed, MnemonicError>)
        ensures
            match r {
                Ok(s) => phrase_error(self.phrase_text()) is None && s.restored_at_some_time(
                    self.meta().kind,
                    phrase_entropy(self.phrase_text()),
                ),
                Err(e) => match phrase_error(self.phrase_text()) {
                    Some(x) => e == x,
                    None => is_clock_failure(e),
                },
            },
    {
        restore_seed_from_phrase(self.metadata.kind, self.phrase.as_str())
    }
}

/// Restoring a backup gives back the seed it was made from (up to the time
/// of restoration), and rebuilding a backup from its own phrase gives the
/// same phrase and metadata.
pub proof fn law_backup_restores_seed(
    b: MnemonicBackup,
    seed: GeneratedSeed,
    restored: GeneratedSeed,
    rebuilt: MnemonicBackup,
    t: u64,
    kind: SeedKind,
    t0: u64,
    recovery: Seq<u8>,
)
    requires
        seed.restored_from(kind, recovery, t0),
        b.backs_up(seed),
        restored.restored_from(b.meta().kind, phrase_entropy(b.phrase_text()), t),
        rebuilt.backs_up(restored),
    ensures
        restored.recovery() == seed.recovery(),
        restored.master() == seed.master(),
        restored.meta().fingerprint@ == seed.meta().fingerprint@,
        rebuilt.phrase_text() == b.phrase_text(),
        rebuilt.meta().kind == b.meta().kind,
        rebuilt.meta().fingerprint@ == b.meta().fingerprint@,
{
}

/// Generates a seed and its backup.
pub fn generate_seed_and_mnemonic(kind: SeedKind) -> (r: Result<(GeneratedSeed, MnemonicBackup), MnemonicError>)
    ensures
        match r {
            Ok((s, b)) => b.backs_up(s) && exists|t: u64, kernel: Seq<u8>|
                t != 0 && kernel.len() == RECOVERY_SEED_LEN && s.restored_from(kind, kernel, t),
            Err(e) => e == MnemonicError::Seed(SeedError::TimeError) || e == MnemonicError::Seed(
                SeedError::EntropyUnavailable,
            ) || e == MnemonicError::Seed(SeedError::InvalidMaterializedAt),
        },
{
    let seed = match generate_seed(kind) {
        Ok(s) => s,
        Err(e) => return Err(MnemonicError::Seed(e)),
    };
    let backup = match MnemonicBackup::from_generated_seed(&seed) {
        Ok(b) => b,
        Err(e) => return Err(e),
    };
    Ok((seed, backup))
}

/// Generates a seed mixing caller entropy, and its backup.
pub fn generate_seed_and_mnemonic_with_additional_entropy(kind: SeedKind, additional_entropy: &[u8]) -> (r:
    Result<(GeneratedSeed, MnemonicBackup), MnemonicError>)
    ensures
        match r {
            Ok((s, b)) => b.backs_up(s) && 0 < additional_entropy@.len() <= MAX_ADDITIONAL_ENTROPY_LEN
                && exists|t: u64, kernel: Seq<u8>|
                t != 0 && kernel.len() == RECOVERY_SEED_LEN && s.restored_from(
                    kind,
                    mixed_recovery_seed(kind, kernel, additional_entropy@),
                    t,
                ),
            Err(e) => if additional_entropy@.len() == 0 || additional_entropy@.len()
                > MAX_ADDITIONAL_ENTROPY_LEN {
                e == MnemonicError::Seed(SeedError::InvalidAdditionalEntropy)
            } else {
                e == MnemonicError::Seed(SeedError::TimeError) || e == MnemonicError::Seed(
                    SeedError::EntropyUnavailable,
                ) || e == MnemonicError::Seed(SeedError::InvalidMaterializedAt)
            },
        },
{
    let seed = match generate_seed_with_additional_entropy(kind, additional_entropy) {
        Ok(s) => s,
        Err(e) => return Err(MnemonicError::Seed(e)),
    };
    proof {
        let t = choose|t: u64, kernel: Seq<u8>|
            t != 0 && kernel.len() == RECOVERY_SEED_LEN && seed.restored_from(
                kind,
                mixed_recovery_seed(kind, kernel, additional_entropy@),
                t,
            );
        assert(mixed_recovery_seed(kind, t.1, additional_entropy@) == seed.recovery());
    }
    let backup = match MnemonicBackup::from_generated_seed(&seed) {
        Ok(b) => b,
        Err(e) => return Err(e),
    };
    Ok((seed, backup))
}

} // verus!
