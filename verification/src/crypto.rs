//! Hash functions, signature schemes and mnemonic encoding from outside crates.
//!
//! Each function here makes one call into `sha3`, `blake3`, `pqcrypto-mldsa`,
//! `pqcrypto-dilithium`, `ed25519-dalek` or `bip39`. Where the result depends
//! only on the inputs, it is named by an uninterpreted spec function and the
//! contract says that the result equals that name applied to the inputs.
//! Key generation and randomized signing get no such name: their contracts
//! state what holds of every outcome, namely the lengths, that generated keys
//! form a key pair (`mldsa65_pair`, `dilithium3_pair`), and that a signature
//! verifies under every public key paired with the signing key. Beside these
//! stand the few facts (output lengths, length checks, round trips) that the
//! crates' sources show.

use vstd::prelude::*;

use crate::text::all_chars;
use crate::text::is_ascii_lower;
use crate::text::split_on;

use pqcrypto_traits::sign::{
    DetachedSignature as _, PublicKey as _, SecretKey as _, SignedMessage as _,
};
use sha3::digest::{ExtendableOutput, Update, XofReader};
use sha3::Digest;
use ed25519_dalek::Verifier;

verus! {

/// SHA3-256 of a byte string (32 bytes).
pub uninterp spec fn sha3_256(data: Seq<u8>) -> Seq<u8>;

/// SHA3-512 of a byte string (64 bytes).
pub uninterp spec fn sha3_512(data: Seq<u8>) -> Seq<u8>;

/// The first `len` bytes of the SHAKE256 output stream for `data`.
pub uninterp spec fn shake256(data: Seq<u8>, len: nat) -> Seq<u8>;

/// BLAKE3 (default, unkeyed mode) of a byte string (32 bytes).
pub uninterp spec fn blake3(data: Seq<u8>) -> Seq<u8>;

/// Whether ML-DSA-65 verification of a detached signature accepts.
pub uninterp spec fn mldsa65_verify(signature: Seq<u8>, message: Seq<u8>, public_key: Seq<u8>) -> bool;

/// Whether `public_key` and `secret_key` are the two halves of one ML-DSA-65
/// key pair.
pub uninterp spec fn mldsa65_pair(public_key: Seq<u8>, secret_key: Seq<u8>) -> bool;

/// Whether `public_key` and `secret_key` are the two halves of one Dilithium3
/// key pair.
pub uninterp spec fn dilithium3_pair(public_key: Seq<u8>, secret_key: Seq<u8>) -> bool;

/// The Dilithium3 signed message (signature, then message) of `message`
/// under `secret_key`; Dilithium3 signing here is deterministic.
pub uninterp spec fn dilithium3_signed(message: Seq<u8>, secret_key: Seq<u8>) -> Seq<u8>;

/// The message that Dilithium3 `open` recovers from `signed` under
/// `public_key`, when the signature verifies.
pub uninterp spec fn dilithium3_opened(signed: Seq<u8>, public_key: Seq<u8>) -> Option<Seq<u8>>;

/// The Ed25519 signature of `message` under the 32-byte secret seed (Ed25519
/// signing is deterministic).
pub uninterp spec fn ed25519_signature(seed: Seq<u8>, message: Seq<u8>) -> Seq<u8>;

/// The Ed25519 public key (compressed point) belonging to a 32-byte secret seed.
pub uninterp spec fn ed25519_public_key(seed: Seq<u8>) -> Seq<u8>;

/// Whether Ed25519 verification of `signature` over `message` under `public_key` accepts.
pub uninterp spec fn ed25519_verify(public_key: Seq<u8>, message: Seq<u8>, signature: Seq<u8>) -> bool;

/// The English BIP-39 phrase for `entropy` and its word count, when `entropy`
/// has an accepted length.
pub uninterp spec fn bip39_encode(entropy: Seq<u8>) -> Option<(Seq<char>, nat)>;

/// The entropy encoded by an English BIP-39 phrase and the phrase's word
/// count, when the phrase parses.
pub uninterp spec fn bip39_decode(phrase: Seq<char>) -> Option<(Seq<u8>, nat)>;

/// Byte length of an ML-DSA-65 public key.
pub const MLDSA65_PUBLIC_KEY_LEN: usize = 1952;

/// Byte length of an ML-DSA-65 secret key.
pub const MLDSA65_SECRET_KEY_LEN: usize = 4032;

/// Maximum byte length of an ML-DSA-65 detached signature.
pub const MLDSA65_SIGNATURE_LEN: usize = 3309;

/// Byte length of a Dilithium3 public key.
pub const DILITHIUM3_PUBLIC_KEY_LEN: usize = 1952;

/// Byte length of a Dilithium3 secret key.
pub const DILITHIUM3_SECRET_KEY_LEN: usize = 4032;

/// `sha3::Sha3_256::digest`: the contract claims the result is SHA3-256 of `data`.
#[verifier::external_body]
pub(crate) fn sha3_256_digest(data: &[u8]) -> (out: [u8; 32])
    ensures
        out@ == sha3_256(data@),
{
    let digest = sha3::Sha3_256::digest(data);
    let mut out = [0u8; 32];
    out.copy_from_slice(&digest);
    out
}

/// `sha3::Sha3_512::digest`: the contract claims the result is SHA3-512 of `data`.
#[verifier::external_body]
pub(crate) fn sha3_512_digest(data: &[u8]) -> (out: [u8; 64])
    ensures
        out@ == sha3_512(data@),
{
    let digest = sha3::Sha3_512::digest(data);
    let mut out = [0u8; 64];
    out.copy_from_slice(&digest);
    out
}

/// `sha3::Shake256` read to `len` bytes: the contract claims the result is the
/// first `len` bytes of the SHAKE256 stream of `data`, so it has length `len`.
#[verifier::external_body]
pub(crate) fn shake256_read(data: &[u8], len: usize) -> (out: Vec<u8>)
    ensures
        out@ == shake256(data@, len as nat),
        out@.len() == len,
{
    let mut shake = sha3::Shake256::default();
    shake.update(data);
    let mut reader = shake.finalize_xof();
    let mut out = vec![0u8; len];
    reader.read(&mut out);
    out
}

/// `blake3::hash`: the contract claims the result is BLAKE3 of `data`.
#[verifier::external_body]
pub(crate) fn blake3_digest(data: &[u8]) -> (out: [u8; 32])
    ensures
        out@ == blake3(data@),
{
    *blake3::hash(data).as_bytes()
}

/// `pqcrypto_mldsa::mldsa65::keypair`: fresh random key material, public key
/// first. The crate draws its randomness through `getrandom` and panics when
/// the operating system has none, so the operating-system source is asked
/// first (`getrandom::fill`) and `None` is returned when it fails. The
/// contract claims the lengths of the two byte strings and that they form a
/// key pair; the key values are random and not described.
#[verifier::external_body]
pub(crate) fn mldsa65_keypair() -> (out: Option<(Vec<u8>, Vec<u8>)>)
    ensures
        out matches Some((pk, sk)) ==> pk@.len() == MLDSA65_PUBLIC_KEY_LEN && sk@.len()
            == MLDSA65_SECRET_KEY_LEN && mldsa65_pair(pk@, sk@),
{
    getrandom::fill(&mut [0u8; 32]).ok()?;
    let (pk, sk) = pqcrypto_mldsa::mldsa65::keypair();
    Some((pk.as_bytes().to_vec(), sk.as_bytes().to_vec()))
}

/// `pqcrypto_mldsa::mldsa65::detached_sign` with a secret key given as bytes.
/// Signing is hedged with fresh randomness, drawn as for `mldsa65_keypair`:
/// `None` when the operating-system source fails. The contract claims the
/// signature's bound length and that it verifies over `message` under every
/// public key that forms a key pair with `secret_key` (ML-DSA correctness, as
/// the crate's own sign/verify test checks); the signature bytes are random.
#[verifier::external_body]
pub(crate) fn mldsa65_sign(message: &[u8], secret_key: &[u8]) -> (signature: Option<Vec<u8>>)
    requires
        secret_key@.len() == MLDSA65_SECRET_KEY_LEN,
    ensures
        signature matches Some(sig) ==> sig@.len() <= MLDSA65_SIGNATURE_LEN,
        signature matches Some(sig) ==> forall|pk: Seq<u8>|
            #[trigger] mldsa65_pair(pk, secret_key@) ==> mldsa65_verify(sig@, message@, pk),
{
    getrandom::fill(&mut [0u8; 32]).ok()?;
    let sk = pqcrypto_mldsa::mldsa65::SecretKey::from_bytes(secret_key).ok()?;
    Some(pqcrypto_mldsa::mldsa65::detached_sign(message, &sk).as_bytes().to_vec())
}

/// `pqcrypto_mldsa::mldsa65::verify_detached_signature` on byte strings whose
/// lengths the caller has checked: the contract claims the result is the named
/// verification outcome.
#[verifier::external_body]
pub(crate) fn mldsa65_verify_detached(signature: &[u8], message: &[u8], public_key: &[u8]) -> (ok: bool)
    requires
        signature@.len() <= MLDSA65_SIGNATURE_LEN,
        public_key@.len() == MLDSA65_PUBLIC_KEY_LEN,
    ensures
        ok == mldsa65_verify(signature@, message@, public_key@),
{
    let sig = match pqcrypto_mldsa::mldsa65::DetachedSignature::from_bytes(signature) {
        Ok(sig) => sig,
        Err(_) => return false,
    };
    let pk = match pqcrypto_mldsa::mldsa65::PublicKey::from_bytes(public_key) {
        Ok(pk) => pk,
        Err(_) => return false,
    };
    pqcrypto_mldsa::mldsa65::verify_detached_signature(&sig, message, &pk).is_ok()
}

#[verifier::external_type_specification]
#[verifier::external_body]
pub struct ExMldsa65PublicKey(pqcrypto_mldsa::mldsa65::PublicKey);

/// `pqcrypto_mldsa::mldsa65::PublicKey::from_bytes`: succeeds exactly when the
/// input has the public-key length (the source checks only the length).
#[verifier::external_body]
pub(crate) fn mldsa65_public_key_from_bytes(bytes: &[u8]) -> (out: Option<pqcrypto_mldsa::mldsa65::PublicKey>)
    ensures
        out is Some <==> bytes@.len() == MLDSA65_PUBLIC_KEY_LEN,
{
    pqcrypto_mldsa::mldsa65::PublicKey::from_bytes(bytes).ok()
}

/// `pqcrypto_dilithium::dilithium3::keypair` with both keys as bytes. The
/// crate panics when the operating system has no randomness, so the
/// operating-system source is asked first (`getrandom::fill`) and `None` is
/// returned when it fails. The contract claims the key lengths and that the
/// two keys form a key pair; the key values are random and not described.
#[verifier::external_body]
pub(crate) fn dilithium3_keypair() -> (out: Option<(Vec<u8>, Vec<u8>)>)
    ensures
        out matches Some((pk, sk)) ==> pk@.len() == DILITHIUM3_PUBLIC_KEY_LEN && sk@.len()
            == DILITHIUM3_SECRET_KEY_LEN && dilithium3_pair(pk@, sk@),
{
    getrandom::fill(&mut [0u8; 32]).ok()?;
    let (pk, sk) = pqcrypto_dilithium::dilithium3::keypair();
    Some((pk.as_bytes().to_vec(), sk.as_bytes().to_vec()))
}

/// Byte length of a Dilithium3 signature.
pub const DILITHIUM3_SIGNATURE_LEN: usize = 3309;

/// `pqcrypto_dilithium::dilithium3::public_key_bytes`: the contract claims the
/// length the crate declares.
#[verifier::external_body]
pub(crate) fn dilithium3_public_key_len() -> (out: usize)
    ensures
        out == DILITHIUM3_PUBLIC_KEY_LEN,
{
    pqcrypto_dilithium::dilithium3::public_key_bytes()
}

/// `pqcrypto_dilithium::dilithium3::secret_key_bytes`: the contract claims the
/// length the crate declares.
#[verifier::external_body]
pub(crate) fn dilithium3_secret_key_len() -> (out: usize)
    ensures
        out == DILITHIUM3_SECRET_KEY_LEN,
{
    pqcrypto_dilithium::dilithium3::secret_key_bytes()
}

/// `pqcrypto_dilithium::dilithium3::sign` with the secret key given as bytes
/// (`SecretKey::from_bytes` accepts exactly that length). The contract claims
/// the result is the named signed message, laid out as a signature followed
/// by the message, and that it opens to `message` under every public key that
/// forms a key pair with `secret_key` (Dilithium3 correctness, as the crate's
/// own sign/open test checks).
#[verifier::external_body]
pub(crate) fn dilithium3_sign(message: &[u8], secret_key: &[u8]) -> (out: Vec<u8>)
    requires
        secret_key@.len() == DILITHIUM3_SECRET_KEY_LEN,
    ensures
        out@ == dilithium3_signed(message@, secret_key@),
        out@.len() == DILITHIUM3_SIGNATURE_LEN + message@.len(),
        out@.skip(DILITHIUM3_SIGNATURE_LEN as int) == message@,
        forall|pk: Seq<u8>|
            #[trigger] dilithium3_pair(pk, secret_key@) ==> dilithium3_opened(out@, pk) == Some(message@),
{
    let sk = match pqcrypto_dilithium::dilithium3::SecretKey::from_bytes(secret_key) {
        Ok(sk) => sk,
        Err(_) => return Vec::new(),
    };
    pqcrypto_dilithium::dilithium3::sign(message, &sk).as_bytes().to_vec()
}

/// `pqcrypto_dilithium::dilithium3::open` with the public key given as bytes
/// (`PublicKey::from_bytes` accepts exactly that length): the contract claims
/// the result is the named opened message, and that an opened message is
/// what follows the signature.
#[verifier::external_body]
pub(crate) fn dilithium3_open(signed: &[u8], public_key: &[u8]) -> (out: Option<Vec<u8>>)
    requires
        public_key@.len() == DILITHIUM3_PUBLIC_KEY_LEN,
    ensures
        match out {
            Some(m) => dilithium3_opened(signed@, public_key@) == Some(m@),
            None => dilithium3_opened(signed@, public_key@) is None,
        },
        out matches Some(m) ==> signed@.len() >= DILITHIUM3_SIGNATURE_LEN && m@ == signed@.skip(
            DILITHIUM3_SIGNATURE_LEN as int,
        ),
{
    let pk = pqcrypto_dilithium::dilithium3::PublicKey::from_bytes(public_key).ok()?;
    let signed = pqcrypto_dilithium::dilithium3::SignedMessage::from_bytes(signed).ok()?;
    pqcrypto_dilithium::dilithium3::open(&signed, &pk).ok()
}

/// `SigningKey::from_bytes(seed).sign(message)` as bytes: the contract claims
/// the result is the named signature, and that it verifies over `message`
/// under the public key of `seed` (Ed25519 correctness).
#[verifier::external_body]
pub(crate) fn ed25519_sign(seed: &[u8; 32], message: &[u8]) -> (out: [u8; 64])
    ensures
        out@ == ed25519_signature(seed@, message@),
        ed25519_verify(ed25519_public_key(seed@), message@, out@),
{
    let key = ed25519_dalek::SigningKey::from_bytes(seed);
    ed25519_dalek::Signer::sign(&key, message).to_bytes()
}

/// `SigningKey::from_bytes(seed).verifying_key().to_bytes()`: the contract
/// claims the result is the named public key of `seed`.
#[verifier::external_body]
pub(crate) fn ed25519_public_key_of_seed(seed: &[u8; 32]) -> (out: [u8; 32])
    ensures
        out@ == ed25519_public_key(seed@),
{
    ed25519_dalek::SigningKey::from_bytes(seed).verifying_key().to_bytes()
}

/// `VerifyingKey::from_bytes` followed by `Verifier::verify`: the contract
/// claims the result is the named verification outcome (false when the key
/// bytes do not decode).
#[verifier::external_body]
pub(crate) fn ed25519_verify_signature(public_key: &[u8; 32], message: &[u8], signature: &[u8; 64]) -> (ok: bool)
    ensures
        ok == ed25519_verify(public_key@, message@, signature@),
{
    let key = match ed25519_dalek::VerifyingKey::from_bytes(public_key) {
        Ok(key) => key,
        Err(_) => return false,
    };
    let signature = ed25519_dalek::Signature::from_bytes(signature);
    key.verify(message, &signature).is_ok()
}

/// `bip39::Mnemonic::from_entropy_in(English, ..)` rendered with `to_string`,
/// together with `word_count`. The contract claims: the result is the named
/// encoding; it exists exactly for 16, 20, 24, 28 or 32 bytes of entropy and
/// has three words per four bytes; the phrase is the words (non-empty runs
/// of lowercase ASCII letters from the English list) joined by single
/// spaces; and parsing the phrase gives the entropy back.
#[verifier::external_body]
pub(crate) fn bip39_encode_english(entropy: &[u8]) -> (out: Option<(String, usize)>)
    ensures
        out is Some <==> (entropy@.len() % 4 == 0 && 16 <= entropy@.len() <= 32),
        match out {
            Some((phrase, words)) => {
                &&& bip39_encode(entropy@) == Some((phrase@, words as nat))
                &&& bip39_decode(phrase@) == Some((entropy@, words as nat))
                &&& words == entropy@.len() * 3 / 4
                &&& all_chars(phrase@, |c: char| is_ascii_lower(c) || c == ' ')
                &&& split_on(phrase@, ' ').len() == words
                &&& forall|i: int|
                    0 <= i < split_on(phrase@, ' ').len() ==> (#[trigger] split_on(phrase@, ' ')[i]).len() > 0
            },
            None => bip39_encode(entropy@) is None,
        },
{
    let mnemonic = bip39::Mnemonic::from_entropy_in(bip39::Language::English, entropy).ok()?;
    Some((mnemonic.to_string(), mnemonic.word_count()))
}

/// `bip39::Mnemonic::parse_in(English, ..)` followed by `to_entropy` and
/// `word_count`: the contract claims the result is the named decoding.
#[verifier::external_body]
pub(crate) fn bip39_decode_english(phrase: &str) -> (out: Option<(Vec<u8>, usize)>)
    ensures
        match out {
            Some((entropy, words)) => bip39_decode(phrase@) == Some((entropy@, words as nat)),
            None => bip39_decode(phrase@) is None,
        },
{
    let mnemonic = bip39::Mnemonic::parse_in(bip39::Language::English, phrase).ok()?;
    Some((mnemonic.to_entropy(), mnemonic.word_count()))
}

} // verus!
