//! Post-quantum (ML-DSA-65) certificate authority: issues detached
//! signatures over domain-separated certificate payloads and verifies them.
//!
//! Signing is randomized, so the contracts speak of "some signature of the
//! allowed length": what is signed, what is checked before and after, and
//! what is returned for whatever signature came back. Verification outcomes
//! are named by `mldsa65_verify`; a fresh authority's keys form a key pair
//! (`mldsa65_pair`), and what such an authority signs verifies under it
//! (`issued_by`, `law_issued_certificate_verifies`).

use vstd::prelude::*;
use vstd::utf8::encode_utf8;

use crate::crypto::MLDSA65_PUBLIC_KEY_LEN;
use crate::crypto::MLDSA65_SECRET_KEY_LEN;
use crate::crypto::MLDSA65_SIGNATURE_LEN;
use crate::crypto::mldsa65_keypair;
use crate::crypto::mldsa65_pair;
use crate::crypto::mldsa65_public_key_from_bytes;
use crate::crypto::mldsa65_sign;
use crate::crypto::mldsa65_verify;
use crate::crypto::mldsa65_verify_detached;
use crate::crypto::sha3_256;
use crate::crypto::sha3_256_digest;
use crate::identity::certificate::Certificate;
use crate::identity::certificate::CertificateError;
use crate::identity::certificate::payload_error;
use crate::identity::certificate::payload_json;
use crate::identity::certificate::payload_of;
use crate::identity::certificate::signed_error;
use crate::identity::certificate::signature_error;
use crate::identity::certificate::unsigned_error;
use crate::text::all_chars;
use crate::text::all_ident;
use crate::text::byte_len;
use crate::text::byte_len_of;
use crate::text::chars_of;
use crate::text::decode_hex;
use crate::text::hex_decode;
use crate::text::hex_upper;
use crate::text::is_ident_char;
use crate::text::push_bytes;
use crate::text::push_chars;
use crate::text::push_hex_upper;
use crate::text::push_str;
use crate::text::push_str_bytes;
use crate::text::str_eq;
use crate::text::str_to_string;
use crate::text::string_from_chars;
use crate::text::trim;
use crate::text::trim_chars;
use crate::text::is_ascii_hexdigit;
use crate::text::all_ascii;
use crate::text::is_ws;
use crate::text::lemma_ascii_byte_len;
use crate::text::lemma_hex_upper_chars;
use crate::text::lemma_hex_upper_len;
use crate::text::lemma_hex_upper_roundtrip;
use crate::text::lemma_trim_empty;
use crate::text::lemma_trim_fixed;
use crate::text::is_ascii_digit;

verus! {

/// Domain prepended to certificate payloads before signing.
pub const CERTIFICATE_SIGNING_DOMAIN: &'static str = "AOXC/IDENTITY/CERTIFICATE/V1";

/// Domain of the key-pair self-test message.
pub const CA_SELF_TEST_DOMAIN: &'static str = "AOXC/IDENTITY/CA/SELF_TEST/V1";

/// Domain of CA key identifiers.
pub const CA_KEY_ID_DOMAIN: &'static str = "AOXC/IDENTITY/CA/KEY_ID/V1";

/// Maximum issuer identifier length (bytes, after trimming).
pub const MAX_ISSUER_LEN: usize = 128;

/// Certificate authority holding ML-DSA-65 key material as raw bytes.
/// A verifier-only authority has an empty secret key.
#[derive(Clone)]
pub struct CertificateAuthority {
    pub issuer: String,
    pub sk_bytes: Vec<u8>,
    pub pk_bytes: Vec<u8>,
}

/// `Some(message)` for an error, `None` for success.
pub open spec fn text_result_matches<T>(r: Result<T, String>, e: Option<Seq<char>>) -> bool {
    match e {
        Some(m) => r is Err && r->Err_0@ == m,
        None => r is Ok,
    }
}

/// Why an issuer identifier is refused, if it is.
pub open spec fn ca_issuer_problem(s: Seq<char>) -> Option<Seq<char>> {
    let t = trim(s);
    if t.len() == 0 {
        Some("CA_ISSUER_INVALID: issuer must not be blank"@)
    } else if byte_len(t) > MAX_ISSUER_LEN {
        Some("CA_ISSUER_INVALID: issuer exceeds maximum supported length"@)
    } else if !all_chars(t, |c: char| is_ident_char(c)) {
        Some("CA_ISSUER_INVALID: issuer contains unsupported characters"@)
    } else {
        None
    }
}

/// The error text when the operating system has no randomness.
pub const CA_ENTROPY_UNAVAILABLE: &'static str = "CA_ENTROPY_UNAVAILABLE: operating-system randomness is unavailable";

pub open spec fn entropy_unavailable_text() -> Seq<char> {
    CA_ENTROPY_UNAVAILABLE@
}

/// The self-test message: domain, issuer and public key.
pub open spec fn self_test_message(issuer: Seq<char>, pk: Seq<u8>) -> Seq<u8> {
    encode_utf8(CA_SELF_TEST_DOMAIN@) + seq![0u8] + encode_utf8(issuer) + seq![0u8] + pk
}

/// Why key material is refused, given the self-test's verdict (`None` when
/// no self-test signature could be made for want of randomness).
pub open spec fn key_material_problem(pk: Seq<u8>, sk: Seq<u8>, self_test: Option<bool>) -> Option<Seq<char>> {
    if pk.len() != MLDSA65_PUBLIC_KEY_LEN {
        Some("CA_PUBLIC_KEY_INVALID: stored public key bytes are invalid"@)
    } else if sk.len() == 0 {
        None
    } else if sk.len() != MLDSA65_SECRET_KEY_LEN {
        Some("CA_SECRET_KEY_INVALID: stored secret key bytes are invalid"@)
    } else if self_test is None {
        Some(entropy_unavailable_text())
    } else if !self_test->0 {
        Some("CA_KEYPAIR_MISMATCH: public and private key material are inconsistent"@)
    } else {
        None
    }
}

/// Whether a self-test made with signature `sig` passes.
pub open spec fn self_test_passes(ca: CertificateAuthority, sig: Seq<u8>) -> bool {
    mldsa65_verify(sig, self_test_message(ca.issuer@, ca.pk_bytes@), ca.pk_bytes@)
}

/// The self-test's verdict for the signature it made, if it made one.
pub open spec fn self_test_outcome(ca: CertificateAuthority, test_sig: Option<Seq<u8>>) -> Option<bool> {
    match test_sig {
        Some(sig) => Some(self_test_passes(ca, sig)),
        None => None,
    }
}

/// A self-test signature as the authority's check can have made it: of
/// bounded length, and, when the keys form a key pair, verifying over the
/// self-test message.
pub open spec fn test_sig_sound(issuer: Seq<char>, pk: Seq<u8>, sk: Seq<u8>, test_sig: Option<Seq<u8>>) -> bool {
    &&& sig_bounded(test_sig)
    &&& mldsa65_pair(pk, sk) ==> (test_sig matches Some(t) ==> mldsa65_verify(
        t,
        self_test_message(issuer, pk),
        pk,
    ))
}

/// A certificate issued by `ca`: the authority's issuer is valid and is the
/// certificate's, the certificate validates as signed, its payload
/// serializes, and its signature decodes to a detached ML-DSA-65 signature
/// that verifies over the domain-separated payload under `ca`'s public key.
pub open spec fn issued_by(ca: CertificateAuthority, c: Certificate) -> bool {
    &&& ca_issuer_problem(ca.issuer@) is None
    &&& c.issuer@ == ca.issuer@
    &&& signed_error(c) is None
    &&& payload_error(payload_of(c)) is None
    &&& hex_decode(c.signature@) is Some
    &&& hex_decode(c.signature@)->0.len() <= MLDSA65_SIGNATURE_LEN
    &&& mldsa65_verify(
        hex_decode(c.signature@)->0,
        signing_message_of(payload_json(payload_of(c))),
        ca.pk_bytes@,
    )
}

/// A signature that was made has at most the ML-DSA-65 signature length.
pub open spec fn sig_bounded(sig: Option<Seq<u8>>) -> bool {
    match sig {
        Some(s) => s.len() <= MLDSA65_SIGNATURE_LEN,
        None => true,
    }
}

/// Why rebuilding an authority from parts fails, given the self-test signature.
pub open spec fn reconstruction_problem(issuer: Seq<char>, pk: Seq<u8>, sk: Seq<u8>, test_sig: Option<Seq<u8>>) -> Option<Seq<char>> {
    if ca_issuer_problem(issuer) is Some {
        ca_issuer_problem(issuer)
    } else {
        key_material_problem(
            pk,
            sk,
            match test_sig {
                Some(t) => Some(mldsa65_verify(t, self_test_message(issuer, pk), pk)),
                None => None,
            },
        )
    }
}

/// The domain-separated message signed for a payload.
pub open spec fn signing_message_of(payload: Seq<u8>) -> Seq<u8> {
    encode_utf8(CERTIFICATE_SIGNING_DOMAIN@) + seq![0u8] + payload
}

/// `cert` with its issuer replaced by the authority's.
pub open spec fn with_issuer(cert: Certificate, issuer: String) -> Certificate {
    Certificate { issuer, ..cert }
}

/// Why signing fails before any signature is made, if it does.
pub open spec fn sign_problem(ca: CertificateAuthority, cert: Certificate, self_test: Option<bool>) -> Option<Seq<char>> {
    let issued = with_issuer(cert, ca.issuer);
    if ca_issuer_problem(ca.issuer@) is Some {
        ca_issuer_problem(ca.issuer@)
    } else if key_material_problem(ca.pk_bytes@, ca.sk_bytes@, self_test) is Some {
        key_material_problem(ca.pk_bytes@, ca.sk_bytes@, self_test)
    } else if unsigned_error(cert) is Some {
        Some("CERT_VALIDATE_ERROR: "@ + unsigned_error(cert)->0.code_text())
    } else if payload_error(payload_of(issued)) is Some {
        Some("CERT_SERIALIZE_ERROR: "@ + payload_error(payload_of(issued))->0.message_text())
    } else if ca.sk_bytes@.len() == 0 {
        Some("CA_SECRET_KEY_MISSING: certificate authority has no private key material"@)
    } else if ca.sk_bytes@.len() != MLDSA65_SECRET_KEY_LEN {
        Some("CA_SECRET_KEY_INVALID: stored secret key bytes are invalid"@)
    } else {
        None
    }
}

/// What `sign_certificate` returns when the self-test used signature
/// `test_sig` and the certificate was signed with `sig`.
pub open spec fn sign_matches(
    r: Result<Certificate, String>,
    ca: CertificateAuthority,
    cert: Certificate,
    test_sig: Option<Seq<u8>>,
    sig: Option<Seq<u8>>,
) -> bool {
    match sign_problem(ca, cert, self_test_outcome(ca, test_sig)) {
        Some(m) => r is Err && r->Err_0@ == m,
        None => if sig is None {
            r is Err && r->Err_0@ == entropy_unavailable_text()
        } else if sig->0.len() == 0 {
            r is Err && r->Err_0@ == "CERT_VALIDATE_ERROR: "@ + "CERT_EMPTY_SIGNATURE"@
        } else {
            r is Ok && r->Ok_0 == Certificate { signature: r->Ok_0.signature, ..with_issuer(cert, ca.issuer) }
                && r->Ok_0.signature@ == hex_upper(sig->0) && signed_error(r->Ok_0) is None
        },
    }
}

/// Why verification fails, given whether the self-test verified.
pub open spec fn verify_problem(ca: CertificateAuthority, cert: Certificate, self_test: Option<bool>) -> Option<Seq<char>> {
    let message = signing_message_of(payload_json(payload_of(cert)));
    if ca_issuer_problem(ca.issuer@) is Some {
        ca_issuer_problem(ca.issuer@)
    } else if key_material_problem(ca.pk_bytes@, ca.sk_bytes@, self_test) is Some {
        key_material_problem(ca.pk_bytes@, ca.sk_bytes@, self_test)
    } else if signed_error(cert) is Some {
        Some("CERT_VERIFY_ERROR: "@ + signed_error(cert)->0.code_text())
    } else if cert.issuer@ != ca.issuer@ {
        Some(
            "CERT_VERIFY_ERROR: issuer mismatch, expected '"@ + ca.issuer@ + "' got '"@
                + cert.issuer@ + "'"@,
        )
    } else if payload_error(payload_of(cert)) is Some {
        Some("CERT_SERIALIZE_ERROR: "@ + payload_error(payload_of(cert))->0.message_text())
    } else if hex_decode(cert.signature@) is None {
        Some("CERT_VERIFY_ERROR: signature is not valid hexadecimal"@)
    } else if hex_decode(cert.signature@)->0.len() > MLDSA65_SIGNATURE_LEN {
        Some("CERT_VERIFY_ERROR: detached signature bytes are invalid"@)
    } else if !mldsa65_verify(hex_decode(cert.signature@)->0, message, ca.pk_bytes@) {
        Some("CERT_VERIFY_ERROR: detached signature verification failed"@)
    } else {
        None
    }
}

/// The key identifier: the first 8 bytes of SHA3-256 over the domain, a
/// zero byte and the public key, in uppercase hexadecimal.
pub open spec fn key_id_of(pk: Seq<u8>) -> Seq<char> {
    hex_upper(sha3_256(encode_utf8(CA_KEY_ID_DOMAIN@) + seq![0u8] + pk).take(8))
}

/// Validates an issuer identifier for the CA surface (checked after trimming).
pub fn validate_issuer_identifier(value: &str) -> (r: Result<(), String>)
    ensures
        text_result_matches(r, ca_issuer_problem(value@)),
{
    let all = chars_of(value);
    let trimmed = trim_chars(&all);
    if trimmed.len() == 0 {
        return Err(str_to_string("CA_ISSUER_INVALID: issuer must not be blank"));
    }
    if byte_len_of(&trimmed) > MAX_ISSUER_LEN as u128 {
        return Err(str_to_string("CA_ISSUER_INVALID: issuer exceeds maximum supported length"));
    }
    if !all_ident(&trimmed) {
        return Err(str_to_string("CA_ISSUER_INVALID: issuer contains unsupported characters"));
    }
    Ok(())
}

proof fn lemma_hex_signature_valid(sig: Seq<u8>)
    requires
        0 < sig.len() <= MLDSA65_SIGNATURE_LEN,
    ensures
        signature_error(hex_upper(sig)) is None,
{
    let h = hex_upper(sig);
    lemma_hex_upper_len(sig);
    lemma_hex_upper_chars(sig);
    assert(all_chars(h, |c: char| is_ascii_hexdigit(c)));
    assert(all_ascii(h)) by {
        assert forall|i: int| 0 <= i < h.len() implies (#[trigger] h[i] as u32) < 128 by {
            assert(is_ascii_digit(h[i]) || ('A' <= h[i] && h[i] <= 'F'));
        }
    }
    lemma_ascii_byte_len(h);
    assert(!is_ws(h[0])) by {
        assert(is_ascii_digit(h[0]) || ('A' <= h[0] && h[0] <= 'F'));
    }
    assert(!is_ws(h.last())) by {
        assert(is_ascii_digit(h[h.len() - 1]) || ('A' <= h[h.len() - 1] && h[h.len() - 1] <= 'F'));
    }
    lemma_trim_fixed(h);
    lemma_trim_empty(h);
}

impl CertificateAuthority {
    /// A new authority with a freshly generated ML-DSA-65 key pair; refused
    /// when the operating system has no randomness.
    pub fn new(name: &str) -> (r: Result<Self, String>)
        ensures
            match r {
                Ok(ca) => ca.issuer@ == name@ && ca.pk_bytes@.len() == MLDSA65_PUBLIC_KEY_LEN
                    && ca.sk_bytes@.len() == MLDSA65_SECRET_KEY_LEN && mldsa65_pair(
                    ca.pk_bytes@,
                    ca.sk_bytes@,
                ),
                Err(e) => e@ == entropy_unavailable_text(),
            },
    {
        match mldsa65_keypair() {
            Some((pk, sk)) => Ok(CertificateAuthority { issuer: str_to_string(name), sk_bytes: sk, pk_bytes: pk }),
            None => Err(str_to_string(CA_ENTROPY_UNAVAILABLE)),
        }
    }

    /// Rebuilds an authority from serialized key material; the issuer must
    /// be valid and, when a secret key is present, a sign/verify self-test
    /// must pass.
    pub fn from_serialized_parts(issuer: &str, pk_bytes: Vec<u8>, sk_bytes: Vec<u8>) -> (r: Result<
        Self,
        String,
    >)
        ensures
            exists|test_sig: Option<Seq<u8>>|
                test_sig_sound(issuer@, pk_bytes@, sk_bytes@, test_sig) && text_result_matches(
                    r,
                    #[trigger] reconstruction_problem(issuer@, pk_bytes@, sk_bytes@, test_sig),
                ),
            r is Ok ==> r->Ok_0.issuer@ == issuer@ && r->Ok_0.pk_bytes@ == pk_bytes@
                && r->Ok_0.sk_bytes@ == sk_bytes@,
    {
        let authority = CertificateAuthority { issuer: str_to_string(issuer), pk_bytes, sk_bytes };
        match validate_issuer_identifier(authority.issuer.as_str()) {
            Err(e) => {
                assert(text_result_matches(
                    Err::<Self, String>(e),
                    reconstruction_problem(issuer@, authority.pk_bytes@, authority.sk_bytes@, None),
                ));
                return Err(e);
            },
            Ok(()) => {},
        }
        let (result, Ghost(test_sig)) = authority.check_key_material();
        match result {
            Err(e) => {
                assert(text_result_matches(Err::<Self, String>(e), reconstruction_problem(issuer@, authority.pk_bytes@, authority.sk_bytes@, test_sig)));
                Err(e)
            },
            Ok(()) => {
                assert(text_result_matches(Ok::<Self, String>(authority), reconstruction_problem(issuer@, authority.pk_bytes@, authority.sk_bytes@, test_sig)));
                Ok(authority)
            },
        }
    }

    /// A verifier-only authority from serialized public key material.
    pub fn from_public_key_bytes(issuer: &str, pk_bytes: Vec<u8>) -> (r: Result<Self, String>)
        ensures
            text_result_matches(
                r,
                if ca_issuer_problem(issuer@) is Some {
                    ca_issuer_problem(issuer@)
                } else {
                    key_material_problem(pk_bytes@, Seq::<u8>::empty(), Some(true))
                },
            ),
            r is Ok ==> r->Ok_0.issuer@ == issuer@ && r->Ok_0.pk_bytes@ == pk_bytes@
                && r->Ok_0.sk_bytes@.len() == 0,
    {
        let ghost pk = pk_bytes@;
        let r = CertificateAuthority::from_serialized_parts(issuer, pk_bytes, Vec::new());
        proof {
            let test_sig = choose|test_sig: Option<Seq<u8>>|
                test_sig_sound(issuer@, pk, Seq::<u8>::empty(), test_sig) && text_result_matches(
                    r,
                    #[trigger] reconstruction_problem(issuer@, pk, Seq::<u8>::empty(), test_sig),
                );
            assert(reconstruction_problem(issuer@, pk, Seq::<u8>::empty(), test_sig) == if ca_issuer_problem(issuer@) is Some {
                ca_issuer_problem(issuer@)
            } else {
                key_material_problem(pk, Seq::<u8>::empty(), Some(true))
            });
        }
        r
    }

    /// A copy without the secret key.
    pub fn to_public_verifier(&self) -> (r: Self)
        ensures
            r.issuer == self.issuer,
            r.pk_bytes@ == self.pk_bytes@,
            r.sk_bytes@.len() == 0,
    {
        CertificateAuthority {
            issuer: self.issuer.clone(),
            pk_bytes: self.pk_bytes.clone(),
            sk_bytes: Vec::new(),
        }
    }

    /// The ML-DSA-65 public key (fails when the stored bytes have the wrong
    /// length).
    pub fn public_key(&self) -> (r: Result<pqcrypto_mldsa::mldsa65::PublicKey, String>)
        ensures
            r is Ok <==> self.pk_bytes@.len() == MLDSA65_PUBLIC_KEY_LEN,
            r is Err ==> r->Err_0@ == "CA_PUBLIC_KEY_INVALID: stored public key bytes are invalid"@,
    {
        match mldsa65_public_key_from_bytes(self.pk_bytes.as_slice()) {
            Some(pk) => Ok(pk),
            None => Err(str_to_string("CA_PUBLIC_KEY_INVALID: stored public key bytes are invalid")),
        }
    }

    /// The public key in uppercase hexadecimal.
    pub fn public_key_hex(&self) -> (r: String)
        ensures
            r@ == hex_upper(self.pk_bytes@),
    {
        let mut out: Vec<char> = Vec::new();
        push_hex_upper(&mut out, self.pk_bytes.as_slice());
        string_from_chars(&out)
    }

    /// Whether secret key material is present.
    pub fn has_private_key(&self) -> (r: bool)
        ensures
            r == (self.sk_bytes@.len() != 0),
    {
        self.sk_bytes.len() != 0
    }

    /// Stable key identifier derived from the public key.
    pub fn key_id(&self) -> (r: String)
        ensures
            r@ == key_id_of(self.pk_bytes@),
    {
        let mut m: Vec<u8> = Vec::new();
        push_str_bytes(&mut m, CA_KEY_ID_DOMAIN);
        m.push(0u8);
        push_bytes(&mut m, self.pk_bytes.as_slice());
        let digest = sha3_256_digest(m.as_slice());
        let mut head: Vec<u8> = Vec::new();
        let mut i: usize = 0;
        while i < 8
            invariant
                i <= 8,
                digest@.len() == 32,
                head@ == digest@.take(i as int),
            decreases 8 - i,
        {
            head.push(digest[i]);
            i += 1;
            assert(head@ =~= digest@.take(i as int));
        }
        let mut out: Vec<char> = Vec::new();
        push_hex_upper(&mut out, head.as_slice());
        assert(m@ =~= encode_utf8(CA_KEY_ID_DOMAIN@) + seq![0u8] + self.pk_bytes@);
        string_from_chars(&out)
    }

    /// Validates the authority's issuer identifier.
    pub fn validate_issuer(&self) -> (r: Result<(), String>)
        ensures
            text_result_matches(r, ca_issuer_problem(self.issuer@)),
    {
        validate_issuer_identifier(self.issuer.as_str())
    }

    /// The self-test message for this authority.
    fn self_test_message(&self) -> (m: Vec<u8>)
        ensures
            m@ == self_test_message(self.issuer@, self.pk_bytes@),
    {
        let mut m: Vec<u8> = Vec::new();
        push_str_bytes(&mut m, CA_SELF_TEST_DOMAIN);
        m.push(0u8);
        push_str_bytes(&mut m, self.issuer.as_str());
        m.push(0u8);
        push_bytes(&mut m, self.pk_bytes.as_slice());
        assert(m@ =~= self_test_message(self.issuer@, self.pk_bytes@));
        m
    }

    /// Checks the key material; also hands back (as a ghost value) the
    /// self-test signature that was used.
    fn check_key_material(&self) -> (r: (Result<(), String>, Ghost<Option<Seq<u8>>>))
        ensures
            test_sig_sound(self.issuer@, self.pk_bytes@, self.sk_bytes@, r.1@),
            text_result_matches(
                r.0,
                key_material_problem(self.pk_bytes@, self.sk_bytes@, self_test_outcome(*self, r.1@)),
            ),
    {
        if self.pk_bytes.len() != MLDSA65_PUBLIC_KEY_LEN {
            return (Err(str_to_string("CA_PUBLIC_KEY_INVALID: stored public key bytes are invalid")), Ghost(None));
        }
        if self.sk_bytes.len() == 0 {
            return (Ok(()), Ghost(None));
        }
        if self.sk_bytes.len() != MLDSA65_SECRET_KEY_LEN {
            return (Err(str_to_string("CA_SECRET_KEY_INVALID: stored secret key bytes are invalid")), Ghost(None));
        }
        let message = self.self_test_message();
        let signature = match mldsa65_sign(message.as_slice(), self.sk_bytes.as_slice()) {
            Some(sig) => sig,
            None => return (Err(str_to_string(CA_ENTROPY_UNAVAILABLE)), Ghost(None)),
        };
        if mldsa65_verify_detached(signature.as_slice(), message.as_slice(), self.pk_bytes.as_slice()) {
            (Ok(()), Ghost(Some(signature@)))
        } else {
            (Err(str_to_string("CA_KEYPAIR_MISMATCH: public and private key material are inconsistent")), Ghost(Some(signature@)))
        }
    }

    /// The domain-separated message for a payload.
    fn signing_message(payload: &[u8]) -> (m: Vec<u8>)
        ensures
            m@ == signing_message_of(payload@),
    {
        let mut m: Vec<u8> = Vec::new();
        push_str_bytes(&mut m, CERTIFICATE_SIGNING_DOMAIN);
        m.push(0u8);
        push_bytes(&mut m, payload);
        assert(m@ =~= signing_message_of(payload@));
        m
    }

    /// The JSON signing payload of a certificate, with the error text of a
    /// payload that fails validation.
    fn certificate_payload(cert: &Certificate) -> (r: Result<Vec<u8>, String>)
        ensures
            match payload_error(payload_of(*cert)) {
                Some(e) => r is Err && r->Err_0@ == "CERT_SERIALIZE_ERROR: "@ + e.message_text(),
                None => r is Ok && r->Ok_0@ == payload_json(payload_of(*cert)),
            },
    {
        match cert.signing_payload_bytes() {
            Ok(bytes) => Ok(bytes),
            Err(error) => {
                let mut out: Vec<char> = Vec::new();
                push_str(&mut out, "CERT_SERIALIZE_ERROR: ");
                let text = error.message();
                push_str(&mut out, text.as_str());
                Err(string_from_chars(&out))
            },
        }
    }

    /// Signs a certificate: the issuer is set to this authority, the
    /// unsigned fields are validated, the domain-separated JSON payload is
    /// signed and the signature stored in uppercase hexadecimal, and the
    /// result is validated as a signed certificate.
    pub fn sign_certificate(&self, cert: Certificate) -> (r: Result<Certificate, String>)
        ensures
            exists|test_sig: Option<Seq<u8>>, sig: Option<Seq<u8>>|
                test_sig_sound(self.issuer@, self.pk_bytes@, self.sk_bytes@, test_sig) && sig_bounded(sig)
                    && #[trigger] sign_matches(r, *self, cert, test_sig, sig),
            r is Ok && mldsa65_pair(self.pk_bytes@, self.sk_bytes@) ==> issued_by(*self, r->Ok_0),
    {
        let ghost given = cert;
        let checked = self.validate_issuer();
        if let Err(e) = checked {
            assert(sign_matches(Err(e), *self, given, None, Some(Seq::empty())));
            return Err(e);
        }
        let (material, Ghost(test_sig)) = self.check_key_material();
        if let Err(e) = material {
            assert(sign_matches(Err(e), *self, given, test_sig, Some(Seq::empty())));
            return Err(e);
        }
        if let Err(error) = cert.validate_unsigned() {
            let mut out: Vec<char> = Vec::new();
            push_str(&mut out, "CERT_VALIDATE_ERROR: ");
            push_str(&mut out, error.code());
            let e = string_from_chars(&out);
            assert(sign_matches(Err(e), *self, given, test_sig, Some(Seq::empty())));
            return Err(e);
        }
        let mut cert = cert;
        cert.issuer = self.issuer.clone();
        assert(cert == with_issuer(given, self.issuer));
        let payload = match Self::certificate_payload(&cert) {
            Ok(p) => p,
            Err(e) => {
                assert(sign_matches(Err(e), *self, given, test_sig, Some(Seq::empty())));
                return Err(e);
            },
        };
        let message = Self::signing_message(payload.as_slice());
        if self.sk_bytes.len() == 0 {
            let e = str_to_string("CA_SECRET_KEY_MISSING: certificate authority has no private key material");
            assert(sign_matches(Err(e), *self, given, test_sig, Some(Seq::empty())));
            return Err(e);
        }
        if self.sk_bytes.len() != MLDSA65_SECRET_KEY_LEN {
            let e = str_to_string("CA_SECRET_KEY_INVALID: stored secret key bytes are invalid");
            assert(sign_matches(Err(e), *self, given, test_sig, Some(Seq::empty())));
            return Err(e);
        }
        let signature = match mldsa65_sign(message.as_slice(), self.sk_bytes.as_slice()) {
            Some(sig) => sig,
            None => {
                let e = str_to_string(CA_ENTROPY_UNAVAILABLE);
                assert(sign_matches(Err(e), *self, given, test_sig, None));
                return Err(e);
            },
        };
        proof {
            assert(mldsa65_pair(self.pk_bytes@, self.sk_bytes@) ==> mldsa65_verify(
                signature@,
                message@,
                self.pk_bytes@,
            ));
            lemma_hex_upper_roundtrip(signature@);
        }
        let ghost unsigned = cert;
        let mut hex: Vec<char> = Vec::new();
        push_hex_upper(&mut hex, signature.as_slice());
        cert.signature = string_from_chars(&hex);
        assert(payload_of(cert) == payload_of(unsigned));
        match cert.validate_signed() {
            Err(error) => {
                let mut out: Vec<char> = Vec::new();
                push_str(&mut out, "CERT_VALIDATE_ERROR: ");
                push_str(&mut out, error.code());
                let e = string_from_chars(&out);
                proof {
                    if signature@.len() > 0 {
                        lemma_hex_signature_valid(signature@);
                    } else {
                        assert(hex@ =~= Seq::<char>::empty());
                        assert(trim(cert.signature@) =~= Seq::<char>::empty());
                    }
                    assert(sign_matches(Err(e), *self, given, test_sig, Some(signature@)));
                }
                Err(e)
            },
            Ok(()) => {
                proof {
                    if signature@.len() == 0 {
                        assert(hex@ =~= Seq::<char>::empty());
                        assert(trim(cert.signature@) =~= Seq::<char>::empty());
                    }
                    assert(sign_matches(Ok(cert), *self, given, test_sig, Some(signature@)));
                }
                Ok(cert)
            },
        }
    }

    /// Whether a certificate verifies under this authority.
    pub fn verify_certificate(&self, cert: &Certificate) -> (r: bool)
        ensures
            exists|test_sig: Option<Seq<u8>>|
                test_sig_sound(self.issuer@, self.pk_bytes@, self.sk_bytes@, test_sig) && r == (#[trigger] verify_problem(
                    *self,
                    *cert,
                    self_test_outcome(*self, test_sig),
                ) is None),
    {
        let r = self.verify_certificate_detailed(cert);
        r.is_ok()
    }

    /// Verifies a certificate and reports why it fails: issuer and key
    /// material, signed-certificate validation, issuer match, then the
    /// detached signature over the domain-separated payload.
    pub fn verify_certificate_detailed(&self, cert: &Certificate) -> (r: Result<(), String>)
        ensures
            exists|test_sig: Option<Seq<u8>>|
                test_sig_sound(self.issuer@, self.pk_bytes@, self.sk_bytes@, test_sig) && #[trigger] text_result_matches(
                    r,
                    verify_problem(*self, *cert, self_test_outcome(*self, test_sig)),
                ),
    {
        let checked = self.validate_issuer();
        if let Err(e) = checked {
            assert(text_result_matches(Err::<(), String>(e), verify_problem(*self, *cert, self_test_outcome(*self, None))));
            return Err(e);
        }
        let (material, Ghost(test_sig)) = self.check_key_material();
        if let Err(e) = material {
            assert(text_result_matches(Err::<(), String>(e), verify_problem(*self, *cert, self_test_outcome(*self, test_sig))));
            return Err(e);
        }
        let ghost st = self_test_outcome(*self, test_sig);
        if let Err(error) = cert.validate_signed() {
            let mut out: Vec<char> = Vec::new();
            push_str(&mut out, "CERT_VERIFY_ERROR: ");
            push_str(&mut out, error.code());
            let e = string_from_chars(&out);
            assert(text_result_matches(Err::<(), String>(e), verify_problem(*self, *cert, st)));
            return Err(e);
        }
        if !str_eq(cert.issuer.as_str(), self.issuer.as_str()) {
            let mut out: Vec<char> = Vec::new();
            push_str(&mut out, "CERT_VERIFY_ERROR: issuer mismatch, expected '");
            push_str(&mut out, self.issuer.as_str());
            push_str(&mut out, "' got '");
            push_str(&mut out, cert.issuer.as_str());
            push_str(&mut out, "'");
            let e = string_from_chars(&out);
            assert(out@ =~= "CERT_VERIFY_ERROR: issuer mismatch, expected '"@ + self.issuer@ + "' got '"@ + cert.issuer@ + "'"@);
            assert(text_result_matches(Err::<(), String>(e), verify_problem(*self, *cert, st)));
            return Err(e);
        }
        let payload = match Self::certificate_payload(cert) {
            Ok(p) => p,
            Err(e) => {
                assert(text_result_matches(Err::<(), String>(e), verify_problem(*self, *cert, st)));
                return Err(e);
            },
        };
        let message = Self::signing_message(payload.as_slice());
        let sig_chars = chars_of(cert.signature.as_str());
        let sig_bytes = match decode_hex(&sig_chars) {
            Some(b) => b,
            None => {
                let e = str_to_string("CERT_VERIFY_ERROR: signature is not valid hexadecimal");
                assert(text_result_matches(Err::<(), String>(e), verify_problem(*self, *cert, st)));
                return Err(e);
            },
        };
        if sig_bytes.len() > MLDSA65_SIGNATURE_LEN {
            let e = str_to_string("CERT_VERIFY_ERROR: detached signature bytes are invalid");
            assert(text_result_matches(Err::<(), String>(e), verify_problem(*self, *cert, st)));
            return Err(e);
        }
        if mldsa65_verify_detached(sig_bytes.as_slice(), message.as_slice(), self.pk_bytes.as_slice()) {
            assert(text_result_matches(Ok::<(), String>(()), verify_problem(*self, *cert, st)));
            Ok(())
        } else {
            let e = str_to_string("CERT_VERIFY_ERROR: detached signature verification failed");
            assert(text_result_matches(Err::<(), String>(e), verify_problem(*self, *cert, st)));
            Err(e)
        }
    }

    /// The certificate with its issuer set to this authority.
    pub fn canonicalize_certificate(&self, cert: Certificate) -> (r: Certificate)
        ensures
            r == with_issuer(cert, self.issuer),
    {
        let mut cert = cert;
        cert.issuer = self.issuer.clone();
        cert
    }

    /// The domain-separated message that would be signed or verified.
    pub fn certificate_signing_payload(&self, cert: &Certificate) -> (r: Result<Vec<u8>, String>)
        ensures
            match payload_error(payload_of(*cert)) {
                Some(e) => r is Err && r->Err_0@ == "CERT_SERIALIZE_ERROR: "@ + e.message_text(),
                None => r is Ok && r->Ok_0@ == signing_message_of(payload_json(payload_of(*cert))),
            },
    {
        let payload = Self::certificate_payload(cert)?;
        Ok(Self::signing_message(payload.as_slice()))
    }
}

/// A certificate issued by an authority whose keys form a key pair verifies
/// under that authority whenever its key self-test could make a signature
/// (that is, unless the operating system had no randomness), and verifies
/// under every verifier-only authority with the same issuer and public key.
pub proof fn law_issued_certificate_verifies(
    ca: CertificateAuthority,
    verifier: CertificateAuthority,
    cert: Certificate,
    test_sig: Option<Seq<u8>>,
)
    requires
        issued_by(ca, cert),
        mldsa65_pair(ca.pk_bytes@, ca.sk_bytes@),
        ca.pk_bytes@.len() == MLDSA65_PUBLIC_KEY_LEN,
        ca.sk_bytes@.len() == MLDSA65_SECRET_KEY_LEN,
        test_sig_sound(ca.issuer@, ca.pk_bytes@, ca.sk_bytes@, test_sig),
        verifier.issuer@ == ca.issuer@,
        verifier.pk_bytes@ == ca.pk_bytes@,
        verifier.sk_bytes@.len() == 0,
    ensures
        test_sig is Some ==> verify_problem(ca, cert, self_test_outcome(ca, test_sig)) is None,
        forall|st: Option<bool>| #[trigger] verify_problem(verifier, cert, st) is None,
{
}

} // verus!
