//! Threshold-signature envelopes bound to a session, round and payload
//! digest, with signer allowlists, quorum checks and a pluggable backend for
//! the cryptographic check of each partial signature.

use vstd::prelude::*;
use vstd::utf8::encode_utf8;

use crate::crypto::sha3_256;
use crate::crypto::sha3_256_digest;
use crate::text::all_chars;
use crate::text::all_ident;
use crate::text::all_zero;
use crate::text::byte_len;
use crate::text::byte_len_of;
use crate::text::bytes_eq;
use crate::text::chars_lt;
use crate::text::chars_of;
use crate::text::count_distinct_strings;
use crate::text::distinct_count;
use crate::text::has_outer_ws;
use crate::text::is_blank;
use crate::text::is_ident_char;
use crate::text::lemma_seq_lt_asymmetric;
use crate::text::lemma_seq_lt_total;
use crate::text::lemma_seq_lt_transitive;
use crate::text::push_bytes;
use crate::text::push_str_bytes;
use crate::text::seq_lt;
use crate::text::str_to_string;
use crate::text::string_seq_views;
use crate::text::strings_contain;
use crate::text::trim;

verus! {

pub const MAX_SIGNER_ID_LEN: usize = 128;

pub const MAX_SESSION_ID_LEN: usize = 128;

pub const MAX_SIGNING_DOMAIN_LEN: usize = 128;

pub const MAX_PARTIAL_SIGNATURE_LEN: usize = 16_384;

pub const PAYLOAD_DIGEST_LEN: usize = 32;

/// Domain separator of the payload digest.
pub const AOXC_TSS_PAYLOAD_DIGEST_DOMAIN: &'static str = "AOXC/IDENTITY/TSS/PAYLOAD_DIGEST/V1";

/// Threshold-signature validation errors.
#[derive(Debug, Clone, PartialEq, Eq, Structural)]
#[non_exhaustive]
pub enum TssError {
    InvalidPolicy,
    InvalidSessionPolicy,
    InvalidSignerId,
    InvalidSessionId,
    InvalidSigningDomain,
    InvalidRound,
    InvalidPayloadDigest,
    InvalidAuthorizedSignerSet,
    InvalidSessionWindow,
    InvalidPartialSignature,
    DuplicateSigner,
    UnauthorizedSigner,
    SessionMismatch,
    RoundMismatch,
    PayloadMismatch,
    SessionNotYetValid,
    SessionExpired,
    QuorumNotReached,
    TooManySigners,
    SignatureBackendRejected,
}

impl TssError {
    pub open spec fn code_text(&self) -> Seq<char> {
        match self {
            TssError::InvalidPolicy => "TSS_INVALID_POLICY"@,
            TssError::InvalidSessionPolicy => "TSS_INVALID_SESSION_POLICY"@,
            TssError::InvalidSignerId => "TSS_INVALID_SIGNER_ID"@,
            TssError::InvalidSessionId => "TSS_INVALID_SESSION_ID"@,
            TssError::InvalidSigningDomain => "TSS_INVALID_SIGNING_DOMAIN"@,
            TssError::InvalidRound => "TSS_INVALID_ROUND"@,
            TssError::InvalidPayloadDigest => "TSS_INVALID_PAYLOAD_DIGEST"@,
            TssError::InvalidAuthorizedSignerSet => "TSS_INVALID_AUTHORIZED_SIGNER_SET"@,
            TssError::InvalidSessionWindow => "TSS_INVALID_SESSION_WINDOW"@,
            TssError::InvalidPartialSignature => "TSS_INVALID_PARTIAL_SIGNATURE"@,
            TssError::DuplicateSigner => "TSS_DUPLICATE_SIGNER"@,
            TssError::UnauthorizedSigner => "TSS_UNAUTHORIZED_SIGNER"@,
            TssError::SessionMismatch => "TSS_SESSION_MISMATCH"@,
            TssError::RoundMismatch => "TSS_ROUND_MISMATCH"@,
            TssError::PayloadMismatch => "TSS_PAYLOAD_MISMATCH"@,
            TssError::SessionNotYetValid => "TSS_SESSION_NOT_YET_VALID"@,
            TssError::SessionExpired => "TSS_SESSION_EXPIRED"@,
            TssError::QuorumNotReached => "TSS_QUORUM_NOT_REACHED"@,
            TssError::TooManySigners => "TSS_TOO_MANY_SIGNERS"@,
            TssError::SignatureBackendRejected => "TSS_SIGNATURE_BACKEND_REJECTED"@,
        }
    }

    /// Stable symbolic error code.
    pub fn code(&self) -> (r: &'static str)
        ensures
            r@ == self.code_text(),
    {
        match self {
            TssError::InvalidPolicy => "TSS_INVALID_POLICY",
            TssError::InvalidSessionPolicy => "TSS_INVALID_SESSION_POLICY",
            TssError::InvalidSignerId => "TSS_INVALID_SIGNER_ID",
            TssError::InvalidSessionId => "TSS_INVALID_SESSION_ID",
            TssError::InvalidSigningDomain => "TSS_INVALID_SIGNING_DOMAIN",
            TssError::InvalidRound => "TSS_INVALID_ROUND",
            TssError::InvalidPayloadDigest => "TSS_INVALID_PAYLOAD_DIGEST",
            TssError::InvalidAuthorizedSignerSet => "TSS_INVALID_AUTHORIZED_SIGNER_SET",
            TssError::InvalidSessionWindow => "TSS_INVALID_SESSION_WINDOW",
            TssError::InvalidPartialSignature => "TSS_INVALID_PARTIAL_SIGNATURE",
            TssError::DuplicateSigner => "TSS_DUPLICATE_SIGNER",
            TssError::UnauthorizedSigner => "TSS_UNAUTHORIZED_SIGNER",
            TssError::SessionMismatch => "TSS_SESSION_MISMATCH",
            TssError::RoundMismatch => "TSS_ROUND_MISMATCH",
            TssError::PayloadMismatch => "TSS_PAYLOAD_MISMATCH",
            TssError::SessionNotYetValid => "TSS_SESSION_NOT_YET_VALID",
            TssError::SessionExpired => "TSS_SESSION_EXPIRED",
            TssError::QuorumNotReached => "TSS_QUORUM_NOT_REACHED",
            TssError::TooManySigners => "TSS_TOO_MANY_SIGNERS",
            TssError::SignatureBackendRejected => "TSS_SIGNATURE_BACKEND_REJECTED",
        }
    }

    /// Human-readable form of the error: its code.
    pub fn message(&self) -> (r: String)
        ensures
            r@ == self.code_text(),
    {
        str_to_string(self.code())
    }
}

// ---------------------------------------------------------------------------
// Identifiers
// ---------------------------------------------------------------------------

/// A bounded canonical identifier: not blank, no outer whitespace, at most
/// `max` bytes, ASCII alphanumerics plus `_`, `-`, `.`.
pub open spec fn identifier_ok(s: Seq<char>, max: nat) -> bool {
    &&& trim(s).len() != 0
    &&& trim(s) == s
    &&& byte_len(s) <= max
    &&& all_chars(s, |c: char| is_ident_char(c))
}

fn validate_identifier(value: &str, max_len: usize) -> (r: bool)
    ensures
        r == identifier_ok(value@, max_len as nat),
{
    let cs = chars_of(value);
    if is_blank(&cs) {
        return false;
    }
    if has_outer_ws(&cs) {
        return false;
    }
    if byte_len_of(&cs) > max_len as u128 {
        return false;
    }
    all_ident(&cs)
}

fn validate_signer_id(signer_id: &str) -> (r: Result<(), TssError>)
    ensures
        r == if identifier_ok(signer_id@, MAX_SIGNER_ID_LEN as nat) {
            Ok(())
        } else {
            Err(TssError::InvalidSignerId)
        },
{
    if validate_identifier(signer_id, MAX_SIGNER_ID_LEN) {
        Ok(())
    } else {
        Err(TssError::InvalidSignerId)
    }
}

fn validate_session_id(session_id: &str) -> (r: Result<(), TssError>)
    ensures
        r == if identifier_ok(session_id@, MAX_SESSION_ID_LEN as nat) {
            Ok(())
        } else {
            Err(TssError::InvalidSessionId)
        },
{
    if validate_identifier(session_id, MAX_SESSION_ID_LEN) {
        Ok(())
    } else {
        Err(TssError::InvalidSessionId)
    }
}

fn validate_signing_domain(signing_domain: &str) -> (r: Result<(), TssError>)
    ensures
        r == if identifier_ok(signing_domain@, MAX_SIGNING_DOMAIN_LEN as nat) {
            Ok(())
        } else {
            Err(TssError::InvalidSigningDomain)
        },
{
    if validate_identifier(signing_domain, MAX_SIGNING_DOMAIN_LEN) {
        Ok(())
    } else {
        Err(TssError::InvalidSigningDomain)
    }
}

pub open spec fn all_zero_bytes(b: Seq<u8>) -> bool {
    forall|i: int| 0 <= i < b.len() ==> b[i] == 0
}

pub open spec fn outcome(e: Option<TssError>) -> Result<(), TssError> {
    match e {
        Some(e) => Err(e),
        None => Ok(()),
    }
}

// ---------------------------------------------------------------------------
// Envelopes, policies and sessions
// ---------------------------------------------------------------------------

/// Legacy threshold partial-signature envelope.
#[derive(Debug, Clone, PartialEq, Eq)]
pub struct PartialSignature {
    pub signer_id: String,
    pub signature: Vec<u8>,
}

pub open spec fn partial_error(p: PartialSignature) -> Option<TssError> {
    if !identifier_ok(p.signer_id@, MAX_SIGNER_ID_LEN as nat) {
        Some(TssError::InvalidSignerId)
    } else if p.signature@.len() == 0 || p.signature@.len() > MAX_PARTIAL_SIGNATURE_LEN {
        Some(TssError::InvalidPartialSignature)
    } else {
        None
    }
}

impl PartialSignature {
    pub fn validate(&self) -> (r: Result<(), TssError>)
        ensures
            r == outcome(partial_error(*self)),
    {
        validate_signer_id(self.signer_id.as_str())?;
        if self.signature.len() == 0 || self.signature.len() > MAX_PARTIAL_SIGNATURE_LEN {
            return Err(TssError::InvalidPartialSignature);
        }
        Ok(())
    }
}

/// Minimum number of distinct signers.
#[derive(Debug, Clone, PartialEq, Eq, Structural)]
pub struct ThresholdPolicy {
    pub min_signers: usize,
}

impl ThresholdPolicy {
    pub fn new(min_signers: usize) -> (r: Self)
        ensures
            r.min_signers == min_signers,
    {
        ThresholdPolicy { min_signers }
    }

    /// A policy must ask for at least one signer.
    pub fn validate(&self) -> (r: Result<(), TssError>)
        ensures
            r == if self.min_signers == 0 {
                Err(TssError::InvalidPolicy)
            } else {
                Ok(())
            },
    {
        if self.min_signers == 0 {
            return Err(TssError::InvalidPolicy);
        }
        Ok(())
    }
}

/// Partial signature bound to a session, round and payload digest.
#[derive(Debug, Clone, PartialEq, Eq)]
pub struct SessionBoundPartialSignature {
    pub signer_id: String,
    pub signature: Vec<u8>,
    pub session_id: String,
    pub round: u64,
    pub payload_digest: [u8; PAYLOAD_DIGEST_LEN],
}

pub open spec fn bound_partial_error(p: SessionBoundPartialSignature) -> Option<TssError> {
    if !identifier_ok(p.signer_id@, MAX_SIGNER_ID_LEN as nat) {
        Some(TssError::InvalidSignerId)
    } else if !identifier_ok(p.session_id@, MAX_SESSION_ID_LEN as nat) {
        Some(TssError::InvalidSessionId)
    } else if p.round == 0 {
        Some(TssError::InvalidRound)
    } else if p.signature@.len() == 0 || p.signature@.len() > MAX_PARTIAL_SIGNATURE_LEN {
        Some(TssError::InvalidPartialSignature)
    } else if all_zero_bytes(p.payload_digest@) {
        Some(TssError::InvalidPayloadDigest)
    } else {
        None
    }
}

impl SessionBoundPartialSignature {
    pub fn validate(&self) -> (r: Result<(), TssError>)
        ensures
            r == outcome(bound_partial_error(*self)),
    {
        validate_signer_id(self.signer_id.as_str())?;
        validate_session_id(self.session_id.as_str())?;
        if self.round == 0 {
            return Err(TssError::InvalidRound);
        }
        if self.signature.len() == 0 || self.signature.len() > MAX_PARTIAL_SIGNATURE_LEN {
            return Err(TssError::InvalidPartialSignature);
        }
        if all_zero(self.payload_digest.as_slice()) {
            return Err(TssError::InvalidPayloadDigest);
        }
        Ok(())
    }
}

/// The approval context partial signatures bind to. The authorized signers
/// form a set: duplicates in the vector count once.
#[derive(Debug, Clone, PartialEq, Eq)]
pub struct ThresholdSessionContext {
    pub session_id: String,
    pub signing_domain: String,
    pub round: u64,
    pub payload_digest: [u8; PAYLOAD_DIGEST_LEN],
    pub authorized_signers: Vec<String>,
    pub issued_at: u64,
    pub expires_at: u64,
}

pub open spec fn session_error(s: ThresholdSessionContext) -> Option<TssError> {
    if !identifier_ok(s.session_id@, MAX_SESSION_ID_LEN as nat) {
        Some(TssError::InvalidSessionId)
    } else if !identifier_ok(s.signing_domain@, MAX_SIGNING_DOMAIN_LEN as nat) {
        Some(TssError::InvalidSigningDomain)
    } else if s.round == 0 {
        Some(TssError::InvalidRound)
    } else if all_zero_bytes(s.payload_digest@) {
        Some(TssError::InvalidPayloadDigest)
    } else if s.issued_at == 0 || s.expires_at == 0 || s.expires_at <= s.issued_at {
        Some(TssError::InvalidSessionWindow)
    } else if s.authorized_signers@.len() == 0 {
        Some(TssError::InvalidAuthorizedSignerSet)
    } else if exists|i: int|
        0 <= i < s.authorized_signers@.len() && !identifier_ok(
            #[trigger] s.authorized_signers@[i]@,
            MAX_SIGNER_ID_LEN as nat,
        ) {
        Some(TssError::InvalidSignerId)
    } else {
        None
    }
}

impl ThresholdSessionContext {
    /// Validates the full session context.
    pub fn validate(&self) -> (r: Result<(), TssError>)
        ensures
            r == outcome(session_error(*self)),
    {
        validate_session_id(self.session_id.as_str())?;
        validate_signing_domain(self.signing_domain.as_str())?;
        if self.round == 0 {
            return Err(TssError::InvalidRound);
        }
        if all_zero(self.payload_digest.as_slice()) {
            return Err(TssError::InvalidPayloadDigest);
        }
        if self.issued_at == 0 || self.expires_at == 0 || self.expires_at <= self.issued_at {
            return Err(TssError::InvalidSessionWindow);
        }
        if self.authorized_signers.len() == 0 {
            return Err(TssError::InvalidAuthorizedSignerSet);
        }
        let n = self.authorized_signers.len();
        let mut i: usize = 0;
        while i < n
            invariant
                n == self.authorized_signers@.len(),
                n > 0,
                identifier_ok(self.session_id@, MAX_SESSION_ID_LEN as nat),
                identifier_ok(self.signing_domain@, MAX_SIGNING_DOMAIN_LEN as nat),
                self.round != 0,
                !all_zero_bytes(self.payload_digest@),
                !(self.issued_at == 0 || self.expires_at == 0 || self.expires_at <= self.issued_at),
                i <= n,
                forall|k: int|
                    0 <= k < i ==> identifier_ok(
                        #[trigger] self.authorized_signers@[k]@,
                        MAX_SIGNER_ID_LEN as nat,
                    ),
            decreases n - i,
        {
            if !validate_identifier(self.authorized_signers[i].as_str(), MAX_SIGNER_ID_LEN) {
                assert(!identifier_ok(self.authorized_signers@[i as int]@, MAX_SIGNER_ID_LEN as nat));
                return Err(TssError::InvalidSignerId);
            }
            i += 1;
        }
        Ok(())
    }

    /// `issued_at <= now < expires_at`.
    pub fn is_valid_at(&self, now: u64) -> (r: bool)
        ensures
            r == (now >= self.issued_at && now < self.expires_at),
    {
        now >= self.issued_at && now < self.expires_at
    }

    /// `now >= expires_at`.
    pub fn is_expired_at(&self, now: u64) -> (r: bool)
        ensures
            r == (now >= self.expires_at),
    {
        now >= self.expires_at
    }

    /// `now < issued_at`.
    pub fn is_not_yet_valid_at(&self, now: u64) -> (r: bool)
        ensures
            r == (now < self.issued_at),
    {
        now < self.issued_at
    }
}

/// Session policy: minimum signers plus optional allowlist, round binding
/// and oversubscription checks.
#[derive(Debug, Clone, PartialEq, Eq, Structural)]
pub struct ThresholdSessionPolicy {
    pub threshold: ThresholdPolicy,
    pub require_authorized_signers: bool,
    pub require_matching_round: bool,
    pub reject_oversubscription: bool,
}

impl ThresholdSessionPolicy {
    pub fn new(min_signers: usize) -> (r: Self)
        ensures
            r == (ThresholdSessionPolicy {
                threshold: ThresholdPolicy { min_signers },
                require_authorized_signers: true,
                require_matching_round: true,
                reject_oversubscription: false,
            }),
    {
        ThresholdSessionPolicy {
            threshold: ThresholdPolicy::new(min_signers),
            require_authorized_signers: true,
            require_matching_round: true,
            reject_oversubscription: false,
        }
    }

    /// Strict policy for protected flows (also rejects oversubscription).
    pub fn strict_default(min_signers: usize) -> (r: Self)
        ensures
            r == (ThresholdSessionPolicy {
                threshold: ThresholdPolicy { min_signers },
                require_authorized_signers: true,
                require_matching_round: true,
                reject_oversubscription: true,
            }),
    {
        ThresholdSessionPolicy {
            threshold: ThresholdPolicy::new(min_signers),
            require_authorized_signers: true,
            require_matching_round: true,
            reject_oversubscription: true,
        }
    }

    pub fn validate(&self) -> (r: Result<(), TssError>)
        ensures
            r == if self.threshold.min_signers == 0 {
                Err(TssError::InvalidPolicy)
            } else {
                Ok(())
            },
    {
        self.threshold.validate()
    }
}

/// Result of a successful session verification.
#[derive(Debug, Clone, PartialEq, Eq)]
pub struct ThresholdVerificationReport {
    pub accepted_signers: Vec<String>,
    pub unique_signer_count: usize,
    pub threshold_required: usize,
    pub session_id: String,
    pub round: u64,
    pub payload_digest: [u8; PAYLOAD_DIGEST_LEN],
}

/// Cryptographic check of a session-bound partial signature, supplied by a
/// signature backend.
pub trait PartialSignatureVerifier {
    fn verify_partial(
        &self,
        session: &ThresholdSessionContext,
        partial: &SessionBoundPartialSignature,
    ) -> Result<(), TssError>;
}

// ---------------------------------------------------------------------------
// Legacy verification
// ---------------------------------------------------------------------------

/// The first error scanning `ps` from position `i`, having seen the signers
/// `seen`: a partial's own error, then a repeated signer.
pub open spec fn legacy_scan(ps: Seq<PartialSignature>, i: int, seen: Seq<Seq<char>>) -> Option<TssError>
    decreases ps.len() - i,
{
    if i < 0 || i >= ps.len() {
        None
    } else if partial_error(ps[i]) is Some {
        partial_error(ps[i])
    } else if seen.contains(ps[i].signer_id@) {
        Some(TssError::DuplicateSigner)
    } else {
        legacy_scan(ps, i + 1, seen.push(ps[i].signer_id@))
    }
}

/// Outcome of the legacy verification.
pub open spec fn legacy_outcome(policy: ThresholdPolicy, ps: Seq<PartialSignature>) -> Result<(), TssError> {
    if policy.min_signers == 0 {
        Err(TssError::InvalidPolicy)
    } else if legacy_scan(ps, 0, seq![]) is Some {
        Err(legacy_scan(ps, 0, seq![])->0)
    } else if ps.len() < policy.min_signers {
        Err(TssError::QuorumNotReached)
    } else {
        Ok(())
    }
}

/// Legacy envelope verification reporting the error code as text.
pub fn verify_threshold_signatures(policy: &ThresholdPolicy, partials: &[PartialSignature]) -> (r:
    Result<(), String>)
    ensures
        match legacy_outcome(*policy, partials@) {
            Ok(()) => r is Ok,
            Err(e) => r is Err && r->Err_0@ == e.code_text(),
        },
{
    match verify_threshold_signatures_detailed(policy, partials) {
        Ok(()) => Ok(()),
        Err(e) => Err(str_to_string(e.code())),
    }
}

/// Legacy envelope verification: valid policy, valid partials, no repeated
/// signer, and at least `min_signers` of them.
pub fn verify_threshold_signatures_detailed(policy: &ThresholdPolicy, partials: &[PartialSignature]) -> (r:
    Result<(), TssError>)
    ensures
        r == legacy_outcome(*policy, partials@),
{
    policy.validate()?;
    let mut seen: Vec<String> = Vec::new();
    let n = partials.len();
    let mut i: usize = 0;
    proof {
        assert(string_seq_views(seen@) =~= Seq::<Seq<char>>::empty());
    }
    while i < n
        invariant
            n == partials@.len(),
            policy.min_signers > 0,
            i <= n,
            seen@.len() == i,
            legacy_scan(partials@, 0, seq![]) == legacy_scan(partials@, i as int, string_seq_views(seen@)),
        decreases n - i,
    {
        let p = &partials[i];
        p.validate()?;
        if strings_contain(seen.as_slice(), &p.signer_id) {
            return Err(TssError::DuplicateSigner);
        }
        let ghost before = string_seq_views(seen@);
        seen.push(p.signer_id.clone());
        proof {
            assert(string_seq_views(seen@) =~= before.push(partials@[i as int].signer_id@));
        }
        i += 1;
    }
    if n < policy.min_signers {
        return Err(TssError::QuorumNotReached);
    }
    Ok(())
}

// ---------------------------------------------------------------------------
// Session verification
// ---------------------------------------------------------------------------

/// Checks made before any partial is looked at.
pub open spec fn session_precheck(
    policy: ThresholdSessionPolicy,
    session: ThresholdSessionContext,
    ps: Seq<SessionBoundPartialSignature>,
    now: u64,
) -> Option<TssError> {
    if policy.threshold.min_signers == 0 {
        Some(TssError::InvalidSessionPolicy)
    } else if session_error(session) is Some {
        session_error(session)
    } else if now < session.issued_at {
        Some(TssError::SessionNotYetValid)
    } else if now >= session.expires_at {
        Some(TssError::SessionExpired)
    } else if policy.reject_oversubscription && ps.len() > distinct_count(
        string_seq_views(session.authorized_signers@),
    ) {
        Some(TssError::TooManySigners)
    } else {
        None
    }
}

/// The first error scanning partials from position `i`, having accepted the
/// signers `seen`; `verdicts[k]` is the backend's answer for partial `k`.
pub open spec fn session_scan(
    policy: ThresholdSessionPolicy,
    session: ThresholdSessionContext,
    ps: Seq<SessionBoundPartialSignature>,
    verdicts: Seq<bool>,
    i: int,
    seen: Seq<Seq<char>>,
) -> Option<TssError>
    decreases ps.len() - i,
{
    if i < 0 || i >= ps.len() {
        None
    } else if bound_partial_error(ps[i]) is Some {
        bound_partial_error(ps[i])
    } else if ps[i].session_id@ != session.session_id@ {
        Some(TssError::SessionMismatch)
    } else if policy.require_matching_round && ps[i].round != session.round {
        Some(TssError::RoundMismatch)
    } else if ps[i].payload_digest@ != session.payload_digest@ {
        Some(TssError::PayloadMismatch)
    } else if policy.require_authorized_signers && !string_seq_views(
        session.authorized_signers@,
    ).contains(ps[i].signer_id@) {
        Some(TssError::UnauthorizedSigner)
    } else if seen.contains(ps[i].signer_id@) {
        Some(TssError::DuplicateSigner)
    } else if !verdicts[i] {
        Some(TssError::SignatureBackendRejected)
    } else {
        session_scan(policy, session, ps, verdicts, i + 1, seen.push(ps[i].signer_id@))
    }
}

/// The error a session verification ends with, if any.
pub open spec fn session_problem(
    policy: ThresholdSessionPolicy,
    session: ThresholdSessionContext,
    ps: Seq<SessionBoundPartialSignature>,
    now: u64,
    verdicts: Seq<bool>,
) -> Option<TssError> {
    if session_precheck(policy, session, ps, now) is Some {
        session_precheck(policy, session, ps, now)
    } else if session_scan(policy, session, ps, verdicts, 0, seq![]) is Some {
        session_scan(policy, session, ps, verdicts, 0, seq![])
    } else if ps.len() < policy.threshold.min_signers {
        Some(TssError::QuorumNotReached)
    } else {
        None
    }
}

/// Strictly increasing in lexicographic order.
pub open spec fn strictly_sorted(v: Seq<Seq<char>>) -> bool {
    forall|i: int, j: int| 0 <= i < j < v.len() ==> seq_lt(#[trigger] v[i], #[trigger] v[j])
}

/// The report of a successful verification: the signers sorted, their
/// count, and the session's binding.
pub open spec fn report_matches(
    r: ThresholdVerificationReport,
    policy: ThresholdSessionPolicy,
    session: ThresholdSessionContext,
    ps: Seq<SessionBoundPartialSignature>,
) -> bool {
    let names = ps.map_values(|p: SessionBoundPartialSignature| p.signer_id@);
    let acc = string_seq_views(r.accepted_signers@);
    &&& strictly_sorted(acc)
    &&& acc.len() == ps.len()
    &&& forall|x: Seq<char>| acc.contains(x) <==> names.contains(x)
    &&& r.unique_signer_count == ps.len()
    &&& r.threshold_required == policy.threshold.min_signers
    &&& r.session_id@ == session.session_id@
    &&& r.round == session.round
    &&& r.payload_digest == session.payload_digest
}

/// What a session verification returns for given backend verdicts.
pub open spec fn session_result_ok(
    r: Result<ThresholdVerificationReport, TssError>,
    policy: ThresholdSessionPolicy,
    session: ThresholdSessionContext,
    ps: Seq<SessionBoundPartialSignature>,
    now: u64,
    verdicts: Seq<bool>,
) -> bool {
    match session_problem(policy, session, ps, now, verdicts) {
        Some(e) => r == Err::<ThresholdVerificationReport, TssError>(e),
        None => r is Ok && report_matches(r->Ok_0, policy, session, ps),
    }
}

/// Session verification without a cryptographic backend: the structural,
/// session, binding, allowlist, uniqueness and quorum checks.
pub fn verify_threshold_session_signatures(
    policy: &ThresholdSessionPolicy,
    session: &ThresholdSessionContext,
    partials: &[SessionBoundPartialSignature],
    now: u64,
) -> (r: Result<ThresholdVerificationReport, TssError>)
    ensures
        session_result_ok(r, *policy, *session, partials@, now, Seq::new(partials@.len(), |i: int| true)),
{
    verify_threshold_session_signatures_internal::<NoBackend>(policy, session, partials, now, None, None)
}

/// Session verification for given backend answers: `verdicts[k]` says
/// whether the backend accepted partial `k`. The result is exactly what a
/// verification whose backend answered so returns.
pub fn session_outcome(
    policy: &ThresholdSessionPolicy,
    session: &ThresholdSessionContext,
    partials: &[SessionBoundPartialSignature],
    now: u64,
    verdicts: &[bool],
) -> (r: Result<ThresholdVerificationReport, TssError>)
    requires
        verdicts@.len() == partials@.len(),
    ensures
        session_result_ok(r, *policy, *session, partials@, now, verdicts@),
{
    verify_threshold_session_signatures_internal::<NoBackend>(
        policy,
        session,
        partials,
        now,
        None,
        Some(verdicts),
    )
}

/// Session verification with a cryptographic backend. Each partial that
/// passes the structural, binding, allowlist and uniqueness checks is handed
/// to `verifier.verify_partial` in order, and verification stops at the first
/// one the backend rejects. What the backend answers is up to its
/// implementation, so the contract says that the result is the one
/// `session_outcome` gives for the answers it gave; nothing ties those
/// answers to the backend beyond that.
pub fn verify_threshold_session_signatures_with_verifier<V: PartialSignatureVerifier>(
    policy: &ThresholdSessionPolicy,
    session: &ThresholdSessionContext,
    partials: &[SessionBoundPartialSignature],
    now: u64,
    verifier: &V,
) -> (r: Result<ThresholdVerificationReport, TssError>)
    ensures
        exists|verdicts: Seq<bool>|
            verdicts.len() == partials@.len() && #[trigger] session_result_ok(
                r,
                *policy,
                *session,
                partials@,
                now,
                verdicts,
            ),
{
    verify_threshold_session_signatures_internal(policy, session, partials, now, Some(verifier), None)
}

/// Placeholder backend type for the path that runs without one.
pub struct NoBackend;

impl PartialSignatureVerifier for NoBackend {
    fn verify_partial(
        &self,
        _session: &ThresholdSessionContext,
        _partial: &SessionBoundPartialSignature,
    ) -> Result<(), TssError> {
        Ok(())
    }
}

/// SHA3-256 of the digest domain, a zero byte and the payload.
pub open spec fn payload_digest_of(payload: Seq<u8>) -> Seq<u8> {
    sha3_256(encode_utf8(AOXC_TSS_PAYLOAD_DIGEST_DOMAIN@) + seq![0u8] + payload)
}

/// The canonical threshold-signing payload digest.
pub fn compute_payload_digest(payload: &[u8]) -> (r: [u8; PAYLOAD_DIGEST_LEN])
    ensures
        r@ == payload_digest_of(payload@),
{
    let mut m: Vec<u8> = Vec::new();
    push_str_bytes(&mut m, AOXC_TSS_PAYLOAD_DIGEST_DOMAIN);
    m.push(0u8);
    push_bytes(&mut m, payload);
    assert(m@ =~= encode_utf8(AOXC_TSS_PAYLOAD_DIGEST_DOMAIN@) + seq![0u8] + payload@);
    sha3_256_digest(m.as_slice())
}

/// Inserts `x` into a strictly sorted vector that does not hold it.
fn insert_sorted(v: &mut Vec<String>, x: String)
    requires
        strictly_sorted(string_seq_views(old(v)@)),
        !string_seq_views(old(v)@).contains(x@),
    ensures
        strictly_sorted(string_seq_views(final(v)@)),
        final(v)@.len() == old(v)@.len() + 1,
        forall|y: Seq<char>|
            string_seq_views(final(v)@).contains(y) <==> (string_seq_views(old(v)@).contains(y)
                || y == x@),
{
    let ghost old_v = string_seq_views(v@);
    let xs: Vec<char> = chars_of(x.as_str());
    let n = v.len();
    let mut p: usize = 0;
    while p < n
        invariant
            n == v@.len(),
            old_v == string_seq_views(v@),
            xs@ == x@,
            p <= n,
            forall|k: int| 0 <= k < p ==> !seq_lt(x@, #[trigger] old_v[k]),
        ensures
            p <= n,
            forall|k: int| 0 <= k < p ==> !seq_lt(x@, #[trigger] old_v[k]),
            p < n ==> seq_lt(x@, old_v[p as int]),
        decreases n - p,
    {
        let cur: Vec<char> = chars_of(v[p].as_str());
        if chars_lt(xs.as_slice(), cur.as_slice()) {
            assert(cur@ == old_v[p as int]);
            break;
        }
        p += 1;
    }
    v.insert(p, x);
    proof {
        let new_v = string_seq_views(v@);
        assert(new_v =~= old_v.insert(p as int, x@));
        assert forall|k: int| 0 <= k < p implies seq_lt(#[trigger] old_v[k], x@) by {
            assert(old_v[k] != x@);
            lemma_seq_lt_total(old_v[k], x@);
        }
        assert forall|i: int, j: int|
            0 <= i < j < new_v.len() implies seq_lt(#[trigger] new_v[i], #[trigger] new_v[j]) by {
            if j < p {
                assert(new_v[i] == old_v[i] && new_v[j] == old_v[j]);
            } else if j == p {
                assert(new_v[i] == old_v[i] && new_v[j] == x@);
            } else if i < p {
                assert(new_v[i] == old_v[i] && new_v[j] == old_v[j - 1]);
            } else if i == p {
                assert(new_v[i] == x@ && new_v[j] == old_v[j - 1]);
                assert(seq_lt(x@, old_v[p as int]));
                if j - 1 > p {
                    lemma_seq_lt_transitive(x@, old_v[p as int], old_v[j - 1]);
                }
            } else {
                assert(new_v[i] == old_v[i - 1] && new_v[j] == old_v[j - 1]);
            }
        }
        assert forall|y: Seq<char>|
            new_v.contains(y) <==> (old_v.contains(y) || y == x@) by {
            if new_v.contains(y) {
                let k = choose|k: int| 0 <= k < new_v.len() && new_v[k] == y;
                if k < p {
                    assert(old_v[k] == y);
                } else if k > p {
                    assert(old_v[k - 1] == y);
                }
            }
            if old_v.contains(y) {
                let k = choose|k: int| 0 <= k < old_v.len() && old_v[k] == y;
                if k < p {
                    assert(new_v[k] == y);
                } else {
                    assert(new_v[k + 1] == y);
                }
            }
            if y == x@ {
                assert(new_v[p as int] == y);
            }
        }
    }
}

/// Shared session verification; `verifier` is consulted for each partial
/// that passes the structural checks.
fn verify_threshold_session_signatures_internal<V: PartialSignatureVerifier>(
    policy: &ThresholdSessionPolicy,
    session: &ThresholdSessionContext,
    partials: &[SessionBoundPartialSignature],
    now: u64,
    verifier: Option<&V>,
    given: Option<&[bool]>,
) -> (r: Result<ThresholdVerificationReport, TssError>)
    requires
        given is Some ==> given->0@.len() == partials@.len(),
    ensures
        given is Some ==> session_result_ok(r, *policy, *session, partials@, now, given->0@),
        verifier is None && given is None ==> session_result_ok(
            r,
            *policy,
            *session,
            partials@,
            now,
            Seq::new(partials@.len(), |i: int| true),
        ),
        exists|verdicts: Seq<bool>|
            verdicts.len() == partials@.len() && #[trigger] session_result_ok(
                r,
                *policy,
                *session,
                partials@,
                now,
                verdicts,
            ),
{
    let ghost ps = partials@;
    let ghost all_true = Seq::new(ps.len(), |i: int| true);
    let ghost gv: Seq<bool> = if given is Some { given->0@ } else { all_true };
    if policy.validate().is_err() {
        assert(session_result_ok(r_err(TssError::InvalidSessionPolicy), *policy, *session, ps, now, all_true));
        assert(session_result_ok(r_err(TssError::InvalidSessionPolicy), *policy, *session, ps, now, gv));
        return Err(TssError::InvalidSessionPolicy);
    }
    let checked = session.validate();
    if let Err(e) = checked {
        assert(session_result_ok(r_err(e), *policy, *session, ps, now, all_true));
        assert(session_result_ok(r_err(e), *policy, *session, ps, now, gv));
        return Err(e);
    }
    if session.is_not_yet_valid_at(now) {
        assert(session_result_ok(r_err(TssError::SessionNotYetValid), *policy, *session, ps, now, all_true));
        assert(session_result_ok(r_err(TssError::SessionNotYetValid), *policy, *session, ps, now, gv));
        return Err(TssError::SessionNotYetValid);
    }
    if session.is_expired_at(now) {
        assert(session_result_ok(r_err(TssError::SessionExpired), *policy, *session, ps, now, all_true));
        assert(session_result_ok(r_err(TssError::SessionExpired), *policy, *session, ps, now, gv));
        return Err(TssError::SessionExpired);
    }
    if policy.reject_oversubscription && partials.len() > count_distinct_strings(
        session.authorized_signers.as_slice(),
    ) {
        assert(session_result_ok(r_err(TssError::TooManySigners), *policy, *session, ps, now, all_true));
        assert(session_result_ok(r_err(TssError::TooManySigners), *policy, *session, ps, now, gv));
        return Err(TssError::TooManySigners);
    }
    assert(session_precheck(*policy, *session, ps, now) is None);
    let mut accepted: Vec<String> = Vec::new();
    let ghost mut seen: Seq<Seq<char>> = seq![];
    let ghost mut vg: Seq<bool> = seq![];
    let n = partials.len();
    let mut i: usize = 0;
    proof {
        assert(string_seq_views(accepted@) =~= Seq::<Seq<char>>::empty());
    }
    while i < n
        invariant
            n == ps.len(),
            ps == partials@,
            all_true == Seq::new(ps.len(), |i: int| true),
            session_precheck(*policy, *session, ps, now) is None,
            i <= n,
            vg.len() == i,
            seen.len() == i,
            verifier is None && given is None ==> forall|k: int| 0 <= k < i ==> #[trigger] vg[k],
            given is Some ==> given->0@.len() == n,
            gv == (if given is Some { given->0@ } else { all_true }),
            given is Some ==> vg == gv.take(i as int),
            forall|k: int| 0 <= k < i ==> #[trigger] seen[k] == ps[k].signer_id@,
            strictly_sorted(string_seq_views(accepted@)),
            accepted@.len() == i,
            forall|y: Seq<char>| string_seq_views(accepted@).contains(y) <==> seen.contains(y),
            forall|vs: Seq<bool>|
                vs.len() == n && vs.take(i as int) == vg ==> #[trigger] session_scan(
                    *policy,
                    *session,
                    ps,
                    vs,
                    0,
                    seq![],
                ) == session_scan(*policy, *session, ps, vs, i as int, seen),
        decreases n - i,
    {
        let p = &partials[i];
        let ghost tail_true = vg + Seq::new((n - i) as nat, |k: int| true);
        proof {
            assert(tail_true.take(i as int) =~= vg);
            assert(tail_true[i as int]);
        }
        let structural = p.validate();
        if let Err(e) = structural {
            proof {
                assert(session_scan(*policy, *session, ps, tail_true, i as int, seen) == Some(e));
                assert(session_result_ok(r_err(e), *policy, *session, ps, now, tail_true));
                if verifier is None && given is None {
                    assert(tail_true =~= all_true);
                }
                if given is Some {
                    assert(gv.take(i as int) =~= vg);
                    assert(session_scan(*policy, *session, ps, gv, i as int, seen) == Some(e));
                    assert(session_result_ok(r_err(e), *policy, *session, ps, now, gv));
                }
            }
            return Err(e);
        }
        let mut err: Option<TssError> = None;
        if p.session_id != session.session_id {
            err = Some(TssError::SessionMismatch);
        } else if policy.require_matching_round && p.round != session.round {
            err = Some(TssError::RoundMismatch);
        } else if !bytes_eq(p.payload_digest.as_slice(), session.payload_digest.as_slice()) {
            err = Some(TssError::PayloadMismatch);
        } else if policy.require_authorized_signers && !strings_contain(
            session.authorized_signers.as_slice(),
            &p.signer_id,
        ) {
            err = Some(TssError::UnauthorizedSigner);
        } else if strings_contain(accepted.as_slice(), &p.signer_id) {
            err = Some(TssError::DuplicateSigner);
        }
        if let Some(e) = err {
            proof {
                assert(session_scan(*policy, *session, ps, tail_true, i as int, seen) == Some(e));
                assert(session_result_ok(r_err(e), *policy, *session, ps, now, tail_true));
                if verifier is None && given is None {
                    assert(tail_true =~= all_true);
                }
                if given is Some {
                    assert(gv.take(i as int) =~= vg);
                    assert(session_scan(*policy, *session, ps, gv, i as int, seen) == Some(e));
                    assert(session_result_ok(r_err(e), *policy, *session, ps, now, gv));
                }
            }
            return Err(e);
        }
        let mut verdict = true;
        if let Some(answers) = given {
            verdict = answers[i];
        } else if let Some(backend) = verifier {
            verdict = backend.verify_partial(session, p).is_ok();
        }
        let ghost vnext = vg.push(verdict);
        if !verdict {
            proof {
                let vs = vnext + Seq::new((n - i - 1) as nat, |k: int| true);
                assert(vs.take(i as int) =~= vg);
                assert(vs[i as int] == false);
                assert(session_scan(*policy, *session, ps, vs, i as int, seen) == Some(TssError::SignatureBackendRejected));
                assert(session_result_ok(r_err(TssError::SignatureBackendRejected), *policy, *session, ps, now, vs));
                if given is Some {
                    assert(gv.take(i as int) =~= vg);
                    assert(gv[i as int] == false);
                    assert(session_scan(*policy, *session, ps, gv, i as int, seen) == Some(TssError::SignatureBackendRejected));
                    assert(session_result_ok(r_err(TssError::SignatureBackendRejected), *policy, *session, ps, now, gv));
                }
            }
            return Err(TssError::SignatureBackendRejected);
        }
        let ghost old_seen = seen;
        let ghost old_acc = string_seq_views(accepted@);
        insert_sorted(&mut accepted, p.signer_id.clone());
        proof {
            seen = seen.push(ps[i as int].signer_id@);
            assert forall|vs: Seq<bool>|
                vs.len() == n && vs.take(i + 1 as int) == vnext implies #[trigger] session_scan(
                *policy,
                *session,
                ps,
                vs,
                0,
                seq![],
            ) == session_scan(*policy, *session, ps, vs, i + 1 as int, seen) by {
                assert(vs.take(i as int) =~= vg);
                assert(vs[i as int] == vnext[i as int]);
                assert(session_scan(*policy, *session, ps, vs, 0, seq![]) == session_scan(
                    *policy,
                    *session,
                    ps,
                    vs,
                    i as int,
                    old_seen,
                ));
            }
            vg = vnext;
            if given is Some {
                assert(vg =~= gv.take(i + 1 as int));
            }
            assert(ps[i as int].signer_id@ == seen[i as int]);
            assert forall|y: Seq<char>| string_seq_views(accepted@).contains(y) <==> seen.contains(y) by {
                assert(old_acc.contains(y) <==> old_seen.contains(y));
                assert(string_seq_views(accepted@).contains(y) <==> (old_acc.contains(y) || y == ps[i as int].signer_id@));
                if seen.contains(y) {
                    let k = choose|k: int| 0 <= k < seen.len() && seen[k] == y;
                    if k < i {
                        assert(old_seen[k] == y);
                    }
                }
                if old_seen.contains(y) {
                    let k = choose|k: int| 0 <= k < old_seen.len() && old_seen[k] == y;
                    assert(seen[k] == y);
                }
            }
        }
        i += 1;
    }
    if n < policy.threshold.min_signers {
        proof {
            assert(vg.take(n as int) =~= vg);
            assert(session_scan(*policy, *session, ps, vg, 0, seq![]) == session_scan(*policy, *session, ps, vg, n as int, seen));
            assert(session_result_ok(r_err(TssError::QuorumNotReached), *policy, *session, ps, now, vg));
            if verifier is None && given is None {
                assert(vg =~= all_true);
            }
            if given is Some {
                assert(vg =~= gv);
            }
        }
        return Err(TssError::QuorumNotReached);
    }
    let report = ThresholdVerificationReport {
        accepted_signers: accepted,
        unique_signer_count: n,
        threshold_required: policy.threshold.min_signers,
        session_id: session.session_id.clone(),
        round: session.round,
        payload_digest: session.payload_digest,
    };
    proof {
        assert(vg.take(n as int) =~= vg);
        let names = ps.map_values(|q: SessionBoundPartialSignature| q.signer_id@);
        assert forall|x: Seq<char>| seen.contains(x) <==> names.contains(x) by {
            if seen.contains(x) {
                let k = choose|k: int| 0 <= k < seen.len() && seen[k] == x;
                assert(names[k] == x);
            }
            if names.contains(x) {
                let k = choose|k: int| 0 <= k < names.len() && names[k] == x;
                assert(seen[k] == x);
            }
        }
        assert(report_matches(report, *policy, *session, ps));
        assert(session_scan(*policy, *session, ps, vg, 0, seq![]) == session_scan(*policy, *session, ps, vg, n as int, seen));
        assert(session_result_ok(Ok(report), *policy, *session, ps, now, vg));
        if verifier is None && given is None {
            assert(vg =~= all_true);
        }
        if given is Some {
            assert(vg =~= gv);
        }
    }
    Ok(report)
}

// ---------------------------------------------------------------------------
// Laws
// ---------------------------------------------------------------------------

/// `seen` with `x` appended holds exactly what `seen` holds, and `x`.
proof fn lemma_push_contains(seen: Seq<Seq<char>>, x: Seq<char>)
    ensures
        forall|y: Seq<char>| #[trigger] seen.push(x).contains(y) <==> (seen.contains(y) || y == x),
{
    let s2 = seen.push(x);
    assert forall|y: Seq<char>| #[trigger] s2.contains(y) <==> (seen.contains(y) || y == x) by {
        if s2.contains(y) {
            let k = choose|k: int| 0 <= k < s2.len() && s2[k] == y;
            if k < seen.len() {
                assert(seen[k] == y);
            }
        }
        if seen.contains(y) {
            let k = choose|k: int| 0 <= k < seen.len() && seen[k] == y;
            assert(s2[k] == y);
        }
        if y == x {
            assert(s2[seen.len() as int] == y);
        }
    }
}

/// The identifiers in `ids` from position `i` on are pairwise distinct.
pub open spec fn signers_distinct_from(ids: Seq<Seq<char>>, i: int) -> bool {
    forall|j: int, k: int| #![trigger ids[j], ids[k]] i <= j < k < ids.len() ==> ids[j] != ids[k]
}

/// The signer identifiers of legacy partials, in order.
pub open spec fn legacy_signers(ps: Seq<PartialSignature>) -> Seq<Seq<char>> {
    ps.map_values(|p: PartialSignature| p.signer_id@)
}

/// The signer identifiers of session-bound partials, in order.
pub open spec fn session_signers(ps: Seq<SessionBoundPartialSignature>) -> Seq<Seq<char>> {
    ps.map_values(|p: SessionBoundPartialSignature| p.signer_id@)
}

proof fn lemma_legacy_scan_none(ps: Seq<PartialSignature>, i: int, seen: Seq<Seq<char>>)
    requires
        0 <= i <= ps.len(),
    ensures
        legacy_scan(ps, i, seen) is None <==> (
            (forall|j: int| i <= j < ps.len() ==> partial_error(#[trigger] ps[j]) is None
                && !seen.contains(ps[j].signer_id@))
            && signers_distinct_from(legacy_signers(ps), i)),
    decreases ps.len() - i,
{
    let ids = legacy_signers(ps);
    if i < ps.len() {
        let x = ps[i].signer_id@;
        lemma_push_contains(seen, x);
        lemma_legacy_scan_none(ps, i + 1, seen.push(x));
        assert(ids[i] == x);
        if legacy_scan(ps, i, seen) is None {
            assert forall|j: int, k: int| #![trigger ids[j], ids[k]] i <= j < k < ids.len()
                implies ids[j] != ids[k] by {
                if j == i {
                    assert(!seen.push(x).contains(ps[k].signer_id@));
                }
            }
        }
        if (forall|j: int| i <= j < ps.len() ==> partial_error(#[trigger] ps[j]) is None
                && !seen.contains(ps[j].signer_id@))
            && signers_distinct_from(ids, i) {
            assert(partial_error(ps[i]) is None);
            assert forall|j: int| i + 1 <= j < ps.len() implies partial_error(#[trigger] ps[j]) is None
                && !seen.push(x).contains(ps[j].signer_id@) by {
                assert(ids[i] != ids[j]);
            }
        }
    }
}

/// The legacy verification succeeds exactly when the policy asks for at
/// least one signer, every partial is well formed, no signer appears twice,
/// and there are at least `min_signers` partials.
pub proof fn law_legacy_success_iff(policy: ThresholdPolicy, ps: Seq<PartialSignature>)
    ensures
        legacy_outcome(policy, ps) is Ok <==> (policy.min_signers >= 1 && (forall|j: int|
            0 <= j < ps.len() ==> partial_error(#[trigger] ps[j]) is None)
            && signers_distinct_from(legacy_signers(ps), 0)
            && ps.len() >= policy.min_signers),
{
    lemma_legacy_scan_none(ps, 0, seq![]);
}

/// A session-bound partial passes every check a successful session
/// verification makes of it, given the backend's answer.
pub open spec fn partial_fits_session(
    policy: ThresholdSessionPolicy,
    session: ThresholdSessionContext,
    p: SessionBoundPartialSignature,
    verdict: bool,
) -> bool {
    &&& bound_partial_error(p) is None
    &&& p.session_id@ == session.session_id@
    &&& p.payload_digest@ == session.payload_digest@
    &&& policy.require_matching_round ==> p.round == session.round
    &&& policy.require_authorized_signers ==> string_seq_views(session.authorized_signers@).contains(
        p.signer_id@,
    )
    &&& verdict
}

proof fn lemma_session_scan_none(
    policy: ThresholdSessionPolicy,
    session: ThresholdSessionContext,
    ps: Seq<SessionBoundPartialSignature>,
    verdicts: Seq<bool>,
    i: int,
    seen: Seq<Seq<char>>,
)
    requires
        0 <= i <= ps.len(),
        verdicts.len() == ps.len(),
        session_scan(policy, session, ps, verdicts, i, seen) is None,
    ensures
        forall|j: int| i <= j < ps.len() ==> partial_fits_session(policy, session, #[trigger] ps[j], verdicts[j])
            && !seen.contains(ps[j].signer_id@),
        signers_distinct_from(session_signers(ps), i),
    decreases ps.len() - i,
{
    let ids = session_signers(ps);
    if i < ps.len() {
        let x = ps[i].signer_id@;
        lemma_push_contains(seen, x);
        lemma_session_scan_none(policy, session, ps, verdicts, i + 1, seen.push(x));
        assert(ids[i] == x);
        assert forall|j: int, k: int| #![trigger ids[j], ids[k]] i <= j < k < ids.len()
            implies ids[j] != ids[k] by {
            if j == i {
                assert(!seen.push(x).contains(ps[k].signer_id@));
            }
        }
    }
}

/// What a successful session verification implies: the session window holds
/// `now`, there are at least `min_signers` partials, each is well formed,
/// bound to the session (identifier, payload digest, and round and allowlist
/// where the policy asks), accepted by the backend, and no signer appears
/// twice.
pub proof fn law_session_success_facts(
    policy: ThresholdSessionPolicy,
    session: ThresholdSessionContext,
    ps: Seq<SessionBoundPartialSignature>,
    now: u64,
    verdicts: Seq<bool>,
)
    requires
        verdicts.len() == ps.len(),
        session_problem(policy, session, ps, now, verdicts) is None,
    ensures
        session.issued_at <= now < session.expires_at,
        ps.len() >= policy.threshold.min_signers,
        forall|j: int| 0 <= j < ps.len() ==> partial_fits_session(policy, session, #[trigger] ps[j], verdicts[j]),
        signers_distinct_from(session_signers(ps), 0),
{
    lemma_session_scan_none(policy, session, ps, verdicts, 0, seq![]);
}

/// A scan finds nothing when every remaining partial passes its checks,
/// none repeats a signer seen so far, and no two remaining ones share one.
proof fn lemma_session_scan_ok(
    policy: ThresholdSessionPolicy,
    session: ThresholdSessionContext,
    ps: Seq<SessionBoundPartialSignature>,
    verdicts: Seq<bool>,
    i: int,
    seen: Seq<Seq<char>>,
)
    requires
        0 <= i <= ps.len(),
        verdicts.len() == ps.len(),
        forall|j: int| i <= j < ps.len() ==> partial_fits_session(policy, session, #[trigger] ps[j], verdicts[j])
            && !seen.contains(ps[j].signer_id@),
        signers_distinct_from(session_signers(ps), i),
    ensures
        session_scan(policy, session, ps, verdicts, i, seen) is None,
    decreases ps.len() - i,
{
    let ids = session_signers(ps);
    if i < ps.len() {
        let x = ps[i].signer_id@;
        lemma_push_contains(seen, x);
        assert(partial_fits_session(policy, session, ps[i], verdicts[i]));
        assert forall|j: int| i + 1 <= j < ps.len() implies partial_fits_session(
            policy,
            session,
            #[trigger] ps[j],
            verdicts[j],
        ) && !seen.push(x).contains(ps[j].signer_id@) by {
            assert(ids[i] == x && ids[j] == ps[j].signer_id@);
            assert(ids[i] != ids[j]);
        }
        lemma_session_scan_ok(policy, session, ps, verdicts, i + 1, seen.push(x));
    }
}

/// Session verification succeeds when every check passes: the policy asks
/// for at least one signer, the session is valid and open at `now`, there
/// are at least `min_signers` partials and no more than the distinct
/// authorized signers, every partial is well formed, bound to the session,
/// authorized where the policy asks and accepted by the backend, and no
/// signer repeats. In particular a full turnout of the authorized signers is
/// not oversubscription.
pub proof fn law_session_success_when_all_checks_pass(
    policy: ThresholdSessionPolicy,
    session: ThresholdSessionContext,
    ps: Seq<SessionBoundPartialSignature>,
    now: u64,
    verdicts: Seq<bool>,
)
    requires
        verdicts.len() == ps.len(),
        policy.threshold.min_signers >= 1,
        session_error(session) is None,
        session.issued_at <= now < session.expires_at,
        policy.threshold.min_signers <= ps.len(),
        ps.len() <= distinct_count(string_seq_views(session.authorized_signers@)),
        forall|j: int| 0 <= j < ps.len() ==> partial_fits_session(policy, session, #[trigger] ps[j], verdicts[j]),
        signers_distinct_from(session_signers(ps), 0),
    ensures
        session_problem(policy, session, ps, now, verdicts) is None,
{
    lemma_session_scan_ok(policy, session, ps, verdicts, 0, seq![]);
}

/// With oversubscription refused, a valid policy and a session valid and
/// open at `now`, more partials than distinct authorized signers are
/// refused as too many, whatever the partials hold.
pub proof fn law_session_oversubscription_refused(
    policy: ThresholdSessionPolicy,
    session: ThresholdSessionContext,
    ps: Seq<SessionBoundPartialSignature>,
    now: u64,
    verdicts: Seq<bool>,
)
    requires
        policy.reject_oversubscription,
        policy.threshold.min_signers >= 1,
        session_error(session) is None,
        session.issued_at <= now < session.expires_at,
        ps.len() > distinct_count(string_seq_views(session.authorized_signers@)),
    ensures
        session_problem(policy, session, ps, now, verdicts) == Some(TssError::TooManySigners),
{
}

pub open spec fn r_err(e: TssError) -> Result<ThresholdVerificationReport, TssError> {
    Err(e)
}

} // verus!
