//! Post-quantum (Dilithium3) key utilities: signed messages, an AOXC domain
//! wrapper for protocol-bound messages, key encodings and fingerprints.

use vstd::prelude::*;
use vstd::utf8::encode_utf8;

use crate::crypto::dilithium3_keypair;
use crate::crypto::dilithium3_open;
use crate::crypto::dilithium3_opened;
use crate::crypto::dilithium3_pair;
use crate::crypto::dilithium3_public_key_len;
use crate::crypto::dilithium3_secret_key_len;
use crate::crypto::dilithium3_sign;
use crate::crypto::dilithium3_signed;
use crate::crypto::sha3_256;
use crate::crypto::sha3_256_digest;
use crate::crypto::DILITHIUM3_PUBLIC_KEY_LEN;
use crate::crypto::DILITHIUM3_SECRET_KEY_LEN;
use crate::crypto::DILITHIUM3_SIGNATURE_LEN;
use crate::text::bytes_range;
use crate::text::chars_of;
use crate::text::decode_hex;
use crate::text::encode_hex_upper;
use crate::text::hex_decode;
use crate::text::hex_upper;
use crate::text::hex_upper_prefix;
use crate::text::lemma_hex_upper_roundtrip;
use crate::text::push_bytes;
use crate::text::push_str_bytes;
use crate::text::str_to_string;

verus! {

pub const AOXC_PQ_FINGERPRINT_DOMAIN: &'static str = "AOXC/IDENTITY/PQ_KEYS/FINGERPRINT/V1";

pub const AOXC_PQ_SIGNING_DOMAIN: &'static str = "AOXC/IDENTITY/PQ_KEYS/SIGNED_MESSAGE/V1";

/// Fingerprint length in bytes.
pub const PQ_FINGERPRINT_LEN: usize = 8;

/// Post-quantum key errors.
#[derive(Debug, Clone, PartialEq, Eq, Structural)]
#[non_exhaustive]
pub enum PqKeyError {
    InvalidSignedMessage,
    SignatureVerificationFailed,
    InvalidPublicKey,
    InvalidSecretKey,
    InvalidPublicKeyHex,
    InvalidSecretKeyHex,
    InvalidWrappedMessageDomain,
}

impl PqKeyError {
    pub open spec fn code_text(&self) -> Seq<char> {
        match self {
            PqKeyError::InvalidSignedMessage => "INVALID_SIGNED_MESSAGE"@,
            PqKeyError::SignatureVerificationFailed => "SIGNATURE_VERIFICATION_FAILED"@,
            PqKeyError::InvalidPublicKey => "INVALID_PUBLIC_KEY"@,
            PqKeyError::InvalidSecretKey => "INVALID_SECRET_KEY"@,
            PqKeyError::InvalidPublicKeyHex => "INVALID_PUBLIC_KEY_HEX"@,
            PqKeyError::InvalidSecretKeyHex => "INVALID_SECRET_KEY_HEX"@,
            PqKeyError::InvalidWrappedMessageDomain => "INVALID_WRAPPED_MESSAGE_DOMAIN"@,
        }
    }

    /// Stable symbolic error code for logs and telemetry.
    pub fn code(&self) -> (r: &'static str)
        ensures
            r@ == self.code_text(),
    {
        match self {
            PqKeyError::InvalidSignedMessage => "INVALID_SIGNED_MESSAGE",
            PqKeyError::SignatureVerificationFailed => "SIGNATURE_VERIFICATION_FAILED",
            PqKeyError::InvalidPublicKey => "INVALID_PUBLIC_KEY",
            PqKeyError::InvalidSecretKey => "INVALID_SECRET_KEY",
            PqKeyError::InvalidPublicKeyHex => "INVALID_PUBLIC_KEY_HEX",
            PqKeyError::InvalidSecretKeyHex => "INVALID_SECRET_KEY_HEX",
            PqKeyError::InvalidWrappedMessageDomain => "INVALID_WRAPPED_MESSAGE_DOMAIN",
        }
    }

    /// Human-readable form of the error: its code.
    pub fn message(&self) -> (r: String)
        ensures
            r@ == self.code_text(),
    {
        str_to_string(self.code())
    }
}

/// The domain prefix of wrapped messages: the signing domain and a zero byte.
pub open spec fn wrap_prefix() -> Seq<u8> {
    encode_utf8(AOXC_PQ_SIGNING_DOMAIN@) + seq![0u8]
}

/// A message wrapped under the signing domain.
pub open spec fn wrapped(message: Seq<u8>) -> Seq<u8> {
    wrap_prefix() + message
}

/// Unwrapping: the bytes after the prefix, when the prefix is there.
pub open spec fn unwrapped(w: Seq<u8>) -> Result<Seq<u8>, PqKeyError> {
    if w.len() >= wrap_prefix().len() && w.take(wrap_prefix().len() as int) == wrap_prefix() {
        Ok(w.skip(wrap_prefix().len() as int))
    } else {
        Err(PqKeyError::InvalidWrappedMessageDomain)
    }
}

/// Unwrapping a wrapped message gives the message back.
pub proof fn law_unwrap_wrap(message: Seq<u8>)
    ensures
        unwrapped(wrapped(message)) == Ok::<Seq<u8>, PqKeyError>(message),
{
    assert(wrapped(message).take(wrap_prefix().len() as int) =~= wrap_prefix());
    assert(wrapped(message).skip(wrap_prefix().len() as int) =~= message);
}

/// Wraps a message under the signing domain.
pub fn wrap_message_for_signing(message: &[u8]) -> (r: Vec<u8>)
    ensures
        r@ == wrapped(message@),
{
    let mut out: Vec<u8> = Vec::new();
    push_str_bytes(&mut out, AOXC_PQ_SIGNING_DOMAIN);
    out.push(0u8);
    push_bytes(&mut out, message);
    assert(out@ =~= wrapped(message@));
    out
}

/// Removes the signing-domain prefix from a verified message.
pub fn unwrap_verified_message(w: &[u8]) -> (r: Result<Vec<u8>, PqKeyError>)
    ensures
        match r {
            Ok(m) => unwrapped(w@) == Ok::<Seq<u8>, PqKeyError>(m@),
            Err(e) => unwrapped(w@) == Err::<Seq<u8>, PqKeyError>(e),
        },
{
    let mut prefix: Vec<u8> = Vec::new();
    push_str_bytes(&mut prefix, AOXC_PQ_SIGNING_DOMAIN);
    prefix.push(0u8);
    assert(prefix@ =~= wrap_prefix());
    let n = prefix.len();
    if w.len() < n {
        return Err(PqKeyError::InvalidWrappedMessageDomain);
    }
    let head = bytes_range(w, 0, n);
    assert(head@ =~= w@.take(n as int));
    if !crate::text::bytes_eq(head.as_slice(), prefix.as_slice()) {
        return Err(PqKeyError::InvalidWrappedMessageDomain);
    }
    let rest = bytes_range(w, n, w.len());
    assert(rest@ =~= w@.skip(n as int));
    Ok(rest)
}

/// A Dilithium3 public key, held as its raw bytes.
#[derive(Debug)]
pub struct PqPublicKey {
    bytes: Vec<u8>,
}

/// A Dilithium3 secret key, held as its raw bytes (secret material).
#[derive(Debug)]
pub struct PqSecretKey {
    bytes: Vec<u8>,
}

impl View for PqPublicKey {
    type V = Seq<u8>;

    closed spec fn view(&self) -> Seq<u8> {
        self.bytes@
    }
}

impl View for PqSecretKey {
    type V = Seq<u8>;

    closed spec fn view(&self) -> Seq<u8> {
        self.bytes@
    }
}

impl PqPublicKey {
    #[verifier::type_invariant]
    spec fn has_key_len(self) -> bool {
        self.bytes@.len() == DILITHIUM3_PUBLIC_KEY_LEN
    }

    /// The raw key bytes.
    pub fn as_bytes(&self) -> (r: &[u8])
        ensures
            r@ == self@,
            r@.len() == DILITHIUM3_PUBLIC_KEY_LEN,
    {
        proof {
            use_type_invariant(self);
        }
        self.bytes.as_slice()
    }
}

impl PqSecretKey {
    #[verifier::type_invariant]
    spec fn has_key_len(self) -> bool {
        self.bytes@.len() == DILITHIUM3_SECRET_KEY_LEN
    }

    /// The raw key bytes (secret material).
    pub fn as_bytes(&self) -> (r: &[u8])
        ensures
            r@ == self@,
            r@.len() == DILITHIUM3_SECRET_KEY_LEN,
    {
        proof {
            use_type_invariant(self);
        }
        self.bytes.as_slice()
    }
}

/// A fresh Dilithium3 key pair from operating-system randomness; `None`
/// when the operating system has none. The keys have their lengths and form
/// a key pair; their values are random.
pub fn generate_keypair() -> (r: Option<(PqPublicKey, PqSecretKey)>)
    ensures
        r matches Some((pk, sk)) ==> pk@.len() == DILITHIUM3_PUBLIC_KEY_LEN && sk@.len()
            == DILITHIUM3_SECRET_KEY_LEN && dilithium3_pair(pk@, sk@),
{
    match dilithium3_keypair() {
        Some((pk, sk)) => Some((PqPublicKey { bytes: pk }, PqSecretKey { bytes: sk })),
        None => None,
    }
}

/// Serialized public-key length (1952 bytes).
pub fn expected_public_key_len() -> (r: usize)
    ensures
        r == DILITHIUM3_PUBLIC_KEY_LEN,
{
    dilithium3_public_key_len()
}

/// Serialized secret-key length (4032 bytes).
pub fn expected_secret_key_len() -> (r: usize)
    ensures
        r == DILITHIUM3_SECRET_KEY_LEN,
{
    dilithium3_secret_key_len()
}

/// What verifying a raw signed message under public-key bytes `pk` yields:
/// the opened message, or `SignatureVerificationFailed`.
pub open spec fn verified(signed: Seq<u8>, pk: Seq<u8>) -> Result<Seq<u8>, PqKeyError> {
    match dilithium3_opened(signed, pk) {
        Some(m) => Ok(m),
        None => Err(PqKeyError::SignatureVerificationFailed),
    }
}

/// What verifying a domain-separated signed message yields: a failed
/// signature, or the opened message with its domain wrapper removed.
pub open spec fn verified_domain_separated(signed: Seq<u8>, pk: Seq<u8>) -> Result<Seq<u8>, PqKeyError> {
    match dilithium3_opened(signed, pk) {
        Some(m) => unwrapped(m),
        None => Err(PqKeyError::SignatureVerificationFailed),
    }
}

/// A verification outcome reported with the error's code as text.
pub open spec fn reported(r: Result<Vec<u8>, String>, e: Result<Seq<u8>, PqKeyError>) -> bool {
    match e {
        Ok(m) => r is Ok && r->Ok_0@ == m,
        Err(k) => r is Err && r->Err_0@ == k.code_text(),
    }
}

/// Signs a raw message: the Dilithium3 signed message (a signature followed
/// by the message). Under every public key that forms a key pair with `sk`
/// it verifies back to the message, and the domain-separated verifier
/// unwraps it as it would the message itself (refusing it unless the message
/// carries the domain wrapper).
pub fn sign_message(message: &[u8], sk: &PqSecretKey) -> (r: Vec<u8>)
    ensures
        r@ == dilithium3_signed(message@, sk@),
        r@.len() == DILITHIUM3_SIGNATURE_LEN + message@.len(),
        r@.skip(DILITHIUM3_SIGNATURE_LEN as int) == message@,
        forall|pk: Seq<u8>|
            #[trigger] dilithium3_pair(pk, sk@) ==> verified(r@, pk) == Ok::<Seq<u8>, PqKeyError>(message@)
                && verified_domain_separated(r@, pk) == unwrapped(message@),
{
    proof {
        use_type_invariant(sk);
    }
    dilithium3_sign(message, sk.bytes.as_slice())
}

/// Signs a message under the AOXC signing domain: the signed message carries
/// the wrapped message, and the domain-separated verifier gives the message
/// back under the matching public key.
pub fn sign_message_domain_separated(message: &[u8], sk: &PqSecretKey) -> (r: Vec<u8>)
    ensures
        r@ == dilithium3_signed(wrapped(message@), sk@),
        r@.len() == DILITHIUM3_SIGNATURE_LEN + wrapped(message@).len(),
        r@.skip(DILITHIUM3_SIGNATURE_LEN as int) == wrapped(message@),
        forall|pk: Seq<u8>|
            #[trigger] dilithium3_pair(pk, sk@) ==> verified_domain_separated(r@, pk) == Ok::<
                Seq<u8>,
                PqKeyError,
            >(message@),
{
    proof {
        use_type_invariant(sk);
        law_unwrap_wrap(message@);
    }
    let w = wrap_message_for_signing(message);
    dilithium3_sign(w.as_slice(), sk.bytes.as_slice())
}

/// Opens a signed message under public-key bytes.
fn verify_message_internal(signed: &[u8], pk: &PqPublicKey) -> (r: Result<Vec<u8>, PqKeyError>)
    ensures
        match verified(signed@, pk@) {
            Ok(m) => r is Ok && r->Ok_0@ == m,
            Err(e) => r == Err::<Vec<u8>, PqKeyError>(e),
        },
        r is Ok ==> signed@.len() >= DILITHIUM3_SIGNATURE_LEN && r->Ok_0@ == signed@.skip(
            DILITHIUM3_SIGNATURE_LEN as int,
        ),
{
    proof {
        use_type_invariant(pk);
    }
    match dilithium3_open(signed, pk.bytes.as_slice()) {
        Some(m) => Ok(m),
        None => Err(PqKeyError::SignatureVerificationFailed),
    }
}

/// Verifies a raw signed message, returning the embedded message; a failure
/// is reported by its error code.
pub fn verify_message(signed: &[u8], pk: &PqPublicKey) -> (r: Result<Vec<u8>, String>)
    ensures
        reported(r, verified(signed@, pk@)),
        r is Ok ==> signed@.len() >= DILITHIUM3_SIGNATURE_LEN && r->Ok_0@ == signed@.skip(
            DILITHIUM3_SIGNATURE_LEN as int,
        ),
{
    match verify_message_internal(signed, pk) {
        Ok(m) => Ok(m),
        Err(e) => Err(str_to_string(e.code())),
    }
}

/// Verifies a domain-separated signed message and removes the wrapper. A
/// failed signature and a missing wrapper are reported by their codes.
pub fn verify_message_domain_separated(signed: &[u8], pk: &PqPublicKey) -> (r: Result<Vec<u8>, String>)
    ensures
        reported(r, verified_domain_separated(signed@, pk@)),
{
    let opened = match verify_message_internal(signed, pk) {
        Ok(m) => m,
        Err(e) => return Err(str_to_string(e.code())),
    };
    match unwrap_verified_message(opened.as_slice()) {
        Ok(m) => Ok(m),
        Err(e) => Err(str_to_string(e.code())),
    }
}

/// The raw public-key bytes.
pub fn serialize_public_key(pk: &PqPublicKey) -> (r: Vec<u8>)
    ensures
        r@ == pk@,
        r@.len() == DILITHIUM3_PUBLIC_KEY_LEN,
{
    let mut out: Vec<u8> = Vec::new();
    push_bytes(&mut out, pk.as_bytes());
    out
}

/// The raw secret-key bytes (secret material).
pub fn serialize_secret_key(sk: &PqSecretKey) -> (r: Vec<u8>)
    ensures
        r@ == sk@,
        r@.len() == DILITHIUM3_SECRET_KEY_LEN,
{
    let mut out: Vec<u8> = Vec::new();
    push_bytes(&mut out, sk.as_bytes());
    out
}

/// The public key in uppercase hexadecimal; it decodes back to the key.
pub fn serialize_public_key_hex(pk: &PqPublicKey) -> (r: String)
    ensures
        r@ == hex_upper(pk@),
        hex_decode(r@) == Some(pk@),
{
    proof {
        lemma_hex_upper_roundtrip(pk@);
    }
    encode_hex_upper(pk.as_bytes())
}

/// The secret key in uppercase hexadecimal (secret material); it decodes
/// back to the key.
pub fn serialize_secret_key_hex(sk: &PqSecretKey) -> (r: String)
    ensures
        r@ == hex_upper(sk@),
        hex_decode(r@) == Some(sk@),
{
    proof {
        lemma_hex_upper_roundtrip(sk@);
    }
    encode_hex_upper(sk.as_bytes())
}

/// A public key from raw bytes: accepted exactly at the public-key length,
/// and then holding those bytes.
pub fn public_key_from_bytes(bytes: &[u8]) -> (r: Result<PqPublicKey, String>)
    ensures
        r is Ok <==> bytes@.len() == DILITHIUM3_PUBLIC_KEY_LEN,
        r matches Ok(k) ==> k@ == bytes@,
        r matches Err(s) ==> s@ == PqKeyError::InvalidPublicKey.code_text(),
{
    if bytes.len() != DILITHIUM3_PUBLIC_KEY_LEN {
        return Err(str_to_string(PqKeyError::InvalidPublicKey.code()));
    }
    let mut out: Vec<u8> = Vec::new();
    push_bytes(&mut out, bytes);
    Ok(PqPublicKey { bytes: out })
}

/// A secret key from raw bytes: accepted exactly at the secret-key length,
/// and then holding those bytes.
pub fn secret_key_from_bytes(bytes: &[u8]) -> (r: Result<PqSecretKey, String>)
    ensures
        r is Ok <==> bytes@.len() == DILITHIUM3_SECRET_KEY_LEN,
        r matches Ok(k) ==> k@ == bytes@,
        r matches Err(s) ==> s@ == PqKeyError::InvalidSecretKey.code_text(),
{
    if bytes.len() != DILITHIUM3_SECRET_KEY_LEN {
        return Err(str_to_string(PqKeyError::InvalidSecretKey.code()));
    }
    let mut out: Vec<u8> = Vec::new();
    push_bytes(&mut out, bytes);
    Ok(PqSecretKey { bytes: out })
}

/// A public key from hexadecimal text (either case).
pub fn public_key_from_hex(encoded: &str) -> (r: Result<PqPublicKey, String>)
    ensures
        r is Ok <==> (hex_decode(encoded@) is Some && hex_decode(encoded@).unwrap().len()
            == DILITHIUM3_PUBLIC_KEY_LEN),
        r matches Ok(k) ==> Some(k@) == hex_decode(encoded@),
        r matches Err(s) ==> if hex_decode(encoded@) is None {
            s@ == PqKeyError::InvalidPublicKeyHex.code_text()
        } else {
            s@ == PqKeyError::InvalidPublicKey.code_text()
        },
{
    let cs = chars_of(encoded);
    match decode_hex(&cs) {
        None => Err(str_to_string(PqKeyError::InvalidPublicKeyHex.code())),
        Some(b) => public_key_from_bytes(b.as_slice()),
    }
}

/// A secret key from hexadecimal text (either case).
pub fn secret_key_from_hex(encoded: &str) -> (r: Result<PqSecretKey, String>)
    ensures
        r is Ok <==> (hex_decode(encoded@) is Some && hex_decode(encoded@).unwrap().len()
            == DILITHIUM3_SECRET_KEY_LEN),
        r matches Ok(k) ==> Some(k@) == hex_decode(encoded@),
        r matches Err(s) ==> if hex_decode(encoded@) is None {
            s@ == PqKeyError::InvalidSecretKeyHex.code_text()
        } else {
            s@ == PqKeyError::InvalidSecretKey.code_text()
        },
{
    let cs = chars_of(encoded);
    match decode_hex(&cs) {
        None => Err(str_to_string(PqKeyError::InvalidSecretKeyHex.code())),
        Some(b) => secret_key_from_bytes(b.as_slice()),
    }
}

/// The fingerprint of public-key bytes.
pub open spec fn fingerprint_of(pk: Seq<u8>) -> Seq<char> {
    hex_upper(sha3_256(encode_utf8(AOXC_PQ_FINGERPRINT_DOMAIN@) + seq![0u8] + pk).take(8))
}

/// Short fingerprint of a public key: the first 8 bytes of SHA3-256 over the
/// domain, a zero byte and the key bytes, in uppercase hexadecimal.
pub fn fingerprint(pk: &PqPublicKey) -> (r: String)
    ensures
        r@ == fingerprint_of(pk@),
{
    let b = pk.as_bytes();
    let mut m: Vec<u8> = Vec::new();
    push_str_bytes(&mut m, AOXC_PQ_FINGERPRINT_DOMAIN);
    m.push(0u8);
    push_bytes(&mut m, b);
    assert(m@ =~= encode_utf8(AOXC_PQ_FINGERPRINT_DOMAIN@) + seq![0u8] + pk@);
    let digest = sha3_256_digest(m.as_slice());
    hex_upper_prefix(&digest, PQ_FINGERPRINT_LEN)
}

} // verus!
