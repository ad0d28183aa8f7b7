//! Revocation list: canonical revocation records kept in strict actor-id
//! order, with explicit validation of every record.

use vstd::prelude::*;

use std::collections::HashSet;

use crate::platform::unix_time_seconds;
use crate::text::all_chars;
use crate::text::all_ident;
use crate::text::byte_len;
use crate::text::byte_len_of;
use crate::text::chars_lt;
use crate::text::chars_of;
use crate::text::chars_start_with;
use crate::text::has_outer_ws;
use crate::text::is_blank;
use crate::text::is_ident_char;
use crate::text::keys_sorted;
use crate::text::lemma_absent_between;
use crate::text::lemma_sorted_insert;
use crate::text::lemma_seq_lt_asymmetric;
use crate::text::lemma_seq_lt_irreflexive;
use crate::text::lemma_seq_lt_total;
use crate::text::lemma_seq_lt_transitive;
use crate::text::push_str;
use crate::text::seq_lt;
use crate::text::starts_with;
use crate::text::str_to_string;
use crate::text::string_from_chars;
use crate::text::string_seq_views;
use crate::text::trim;

verus! {

/// Maximum accepted actor identifier length, in bytes.
pub const MAX_ACTOR_ID_LEN: usize = 128;

/// Maximum accepted free-form revocation reason length, in bytes.
pub const MAX_REASON_TEXT_LEN: usize = 256;

/// Why an identity was revoked.
#[derive(Debug, Clone, PartialEq, Eq)]
pub enum RevocationReason {
    KeyCompromise,
    OperatorAction,
    GovernanceDecision,
    ExpiredCertificate,
    Other(String),
}

/// The reason as a mathematical value.
pub enum ReasonView {
    KeyCompromise,
    OperatorAction,
    GovernanceDecision,
    ExpiredCertificate,
    Other(Seq<char>),
}

impl View for RevocationReason {
    type V = ReasonView;

    open spec fn view(&self) -> ReasonView {
        match self {
            RevocationReason::KeyCompromise => ReasonView::KeyCompromise,
            RevocationReason::OperatorAction => ReasonView::OperatorAction,
            RevocationReason::GovernanceDecision => ReasonView::GovernanceDecision,
            RevocationReason::ExpiredCertificate => ReasonView::ExpiredCertificate,
            RevocationReason::Other(s) => ReasonView::Other(s@),
        }
    }
}

/// A single revocation record.
#[derive(Debug, Clone, PartialEq, Eq)]
pub struct RevocationEntry {
    pub actor_id: String,
    pub reason: RevocationReason,
    pub revoked_at: u64,
}

/// A revocation record as a mathematical value.
pub struct RevocationRecord {
    pub actor_id: Seq<char>,
    pub reason: ReasonView,
    pub revoked_at: u64,
}

impl View for RevocationEntry {
    type V = RevocationRecord;

    open spec fn view(&self) -> RevocationRecord {
        RevocationRecord { actor_id: self.actor_id@, reason: self.reason@, revoked_at: self.revoked_at }
    }
}

/// Revocation-list errors.
#[derive(Debug, Clone, PartialEq, Eq)]
#[non_exhaustive]
pub enum RevocationError {
    EmptyActorId,
    InvalidActorId,
    InvalidReason,
    InvalidRevokedAt,
    TimeError,
    SerializationFailed(String),
    ParseFailed(String),
}

impl RevocationError {
    pub open spec fn code_text(&self) -> Seq<char> {
        match self {
            RevocationError::EmptyActorId => "REVOCATION_EMPTY_ACTOR_ID"@,
            RevocationError::InvalidActorId => "REVOCATION_INVALID_ACTOR_ID"@,
            RevocationError::InvalidReason => "REVOCATION_INVALID_REASON"@,
            RevocationError::InvalidRevokedAt => "REVOCATION_INVALID_REVOKED_AT"@,
            RevocationError::TimeError => "REVOCATION_TIME_ERROR"@,
            RevocationError::SerializationFailed(_) => "REVOCATION_SERIALIZATION_FAILED"@,
            RevocationError::ParseFailed(_) => "REVOCATION_PARSE_FAILED"@,
        }
    }

    /// Stable symbolic error code for logs and telemetry.
    pub fn code(&self) -> (r: &'static str)
        ensures
            r@ == self.code_text(),
    {
        match self {
            RevocationError::EmptyActorId => "REVOCATION_EMPTY_ACTOR_ID",
            RevocationError::InvalidActorId => "REVOCATION_INVALID_ACTOR_ID",
            RevocationError::InvalidReason => "REVOCATION_INVALID_REASON",
            RevocationError::InvalidRevokedAt => "REVOCATION_INVALID_REVOKED_AT",
            RevocationError::TimeError => "REVOCATION_TIME_ERROR",
            RevocationError::SerializationFailed(_) => "REVOCATION_SERIALIZATION_FAILED",
            RevocationError::ParseFailed(_) => "REVOCATION_PARSE_FAILED",
        }
    }

    pub open spec fn message_text(&self) -> Seq<char> {
        match self {
            RevocationError::EmptyActorId => "revocation operation failed: actor_id must not be empty"@,
            RevocationError::InvalidActorId => "revocation operation failed: actor_id is not canonical"@,
            RevocationError::InvalidReason => "revocation operation failed: reason is invalid"@,
            RevocationError::InvalidRevokedAt => "revocation operation failed: revoked_at is invalid"@,
            RevocationError::TimeError => "revocation operation failed: system time is invalid"@,
            RevocationError::SerializationFailed(e) => "revocation serialization failed: "@ + e@,
            RevocationError::ParseFailed(e) => "revocation parsing failed: "@ + e@,
        }
    }

    /// Human-readable description of the error.
    pub fn message(&self) -> (r: String)
        ensures
            r@ == self.message_text(),
    {
        match self {
            RevocationError::EmptyActorId => str_to_string("revocation operation failed: actor_id must not be empty"),
            RevocationError::InvalidActorId => str_to_string("revocation operation failed: actor_id is not canonical"),
            RevocationError::InvalidReason => str_to_string("revocation operation failed: reason is invalid"),
            RevocationError::InvalidRevokedAt => str_to_string("revocation operation failed: revoked_at is invalid"),
            RevocationError::TimeError => str_to_string("revocation operation failed: system time is invalid"),
            RevocationError::SerializationFailed(e) => {
                let mut out: Vec<char> = Vec::new();
                push_str(&mut out, "revocation serialization failed: ");
                push_str(&mut out, e.as_str());
                string_from_chars(&out)
            },
            RevocationError::ParseFailed(e) => {
                let mut out: Vec<char> = Vec::new();
                push_str(&mut out, "revocation parsing failed: ");
                push_str(&mut out, e.as_str());
                string_from_chars(&out)
            },
        }
    }
}

// ---------------------------------------------------------------------------
// Record rules
// ---------------------------------------------------------------------------

/// Why an actor identifier is not canonical, if it is not: blank text is
/// empty; outer whitespace, more than `MAX_ACTOR_ID_LEN` bytes, a missing
/// `AOXC-` prefix or a character outside `[A-Za-z0-9_.-]` make it invalid.
pub open spec fn actor_id_error(s: Seq<char>) -> Option<RevocationError> {
    if trim(s).len() == 0 {
        Some(RevocationError::EmptyActorId)
    } else if trim(s) != s || byte_len(s) > MAX_ACTOR_ID_LEN || !starts_with(s, "AOXC-"@)
        || !all_chars(s, |c: char| is_ident_char(c)) {
        Some(RevocationError::InvalidActorId)
    } else {
        None
    }
}

/// A free-form reason must be non-blank, without outer whitespace and at most
/// `MAX_REASON_TEXT_LEN` bytes; the named reasons are always canonical.
pub open spec fn reason_error(r: ReasonView) -> Option<RevocationError> {
    match r {
        ReasonView::Other(s) => if trim(s).len() == 0 || trim(s) != s || byte_len(s)
            > MAX_REASON_TEXT_LEN {
            Some(RevocationError::InvalidReason)
        } else {
            None
        },
        _ => None,
    }
}

/// The first rule a revocation request breaks: actor id, then reason, then
/// timestamp.
pub open spec fn request_error(actor_id: Seq<char>, reason: ReasonView, revoked_at: u64) -> Option<
    RevocationError,
> {
    if actor_id_error(actor_id) is Some {
        actor_id_error(actor_id)
    } else if reason_error(reason) is Some {
        reason_error(reason)
    } else if revoked_at == 0 {
        Some(RevocationError::InvalidRevokedAt)
    } else {
        None
    }
}

/// Why a record is not self-consistent, if it is not.
pub open spec fn record_error(r: RevocationRecord) -> Option<RevocationError> {
    request_error(r.actor_id, r.reason, r.revoked_at)
}

pub open spec fn unit_outcome(e: Option<RevocationError>) -> Result<(), RevocationError> {
    match e {
        Some(e) => Err(e),
        None => Ok(()),
    }
}

/// Checks an actor identifier and returns its canonical (identical) form.
fn canonicalize_actor_id(actor_id: &str) -> (r: Result<String, RevocationError>)
    ensures
        match r {
            Ok(s) => actor_id_error(actor_id@) is None && s@ == actor_id@,
            Err(e) => actor_id_error(actor_id@) == Some(e),
        },
{
    let cs = chars_of(actor_id);
    if is_blank(&cs) {
        return Err(RevocationError::EmptyActorId);
    }
    if has_outer_ws(&cs) {
        return Err(RevocationError::InvalidActorId);
    }
    if byte_len_of(&cs) > MAX_ACTOR_ID_LEN as u128 {
        return Err(RevocationError::InvalidActorId);
    }
    let prefix = chars_of("AOXC-");
    if !chars_start_with(&cs, &prefix) {
        return Err(RevocationError::InvalidActorId);
    }
    if !all_ident(&cs) {
        return Err(RevocationError::InvalidActorId);
    }
    Ok(str_to_string(actor_id))
}

impl RevocationReason {
    pub open spec fn code_text(&self) -> Seq<char> {
        match self {
            RevocationReason::KeyCompromise => "KEY_COMPROMISE"@,
            RevocationReason::OperatorAction => "OPERATOR_ACTION"@,
            RevocationReason::GovernanceDecision => "GOVERNANCE_DECISION"@,
            RevocationReason::ExpiredCertificate => "EXPIRED_CERTIFICATE"@,
            RevocationReason::Other(_) => "OTHER"@,
        }
    }

    /// Stable symbolic reason code.
    pub fn code(&self) -> (r: &'static str)
        ensures
            r@ == self.code_text(),
    {
        match self {
            RevocationReason::KeyCompromise => "KEY_COMPROMISE",
            RevocationReason::OperatorAction => "OPERATOR_ACTION",
            RevocationReason::GovernanceDecision => "GOVERNANCE_DECISION",
            RevocationReason::ExpiredCertificate => "EXPIRED_CERTIFICATE",
            RevocationReason::Other(_) => "OTHER",
        }
    }

    /// An identical copy of the reason.
    fn duplicate(&self) -> (r: Self)
        ensures
            r == *self,
    {
        match self {
            RevocationReason::KeyCompromise => RevocationReason::KeyCompromise,
            RevocationReason::OperatorAction => RevocationReason::OperatorAction,
            RevocationReason::GovernanceDecision => RevocationReason::GovernanceDecision,
            RevocationReason::ExpiredCertificate => RevocationReason::ExpiredCertificate,
            RevocationReason::Other(s) => RevocationReason::Other(s.clone()),
        }
    }

    /// The canonical form of the reason: the reason itself, when it is valid.
    pub fn canonicalize(&self) -> (r: Result<Self, RevocationError>)
        ensures
            r == match reason_error(self@) {
                Some(e) => Err(e),
                None => Ok(*self),
            },
    {
        if let RevocationReason::Other(value) = self {
            let cs = chars_of(value.as_str());
            if is_blank(&cs) || has_outer_ws(&cs) || byte_len_of(&cs) > MAX_REASON_TEXT_LEN as u128 {
                return Err(RevocationError::InvalidReason);
            }
        }
        Ok(self.duplicate())
    }
}

impl RevocationEntry {
    /// An identical copy of the entry.
    fn duplicate(&self) -> (r: Self)
        ensures
            r == *self,
    {
        RevocationEntry {
            actor_id: self.actor_id.clone(),
            reason: self.reason.duplicate(),
            revoked_at: self.revoked_at,
        }
    }

    /// Checks that the entry is a self-consistent record: canonical actor id,
    /// canonical reason, non-zero timestamp.
    pub fn validate(&self) -> (r: Result<(), RevocationError>)
        ensures
            r == unit_outcome(record_error(self@)),
    {
        if let Err(e) = canonicalize_actor_id(self.actor_id.as_str()) {
            return Err(e);
        }
        if let Err(e) = self.reason.canonicalize() {
            return Err(e);
        }
        if self.revoked_at == 0 {
            return Err(RevocationError::InvalidRevokedAt);
        }
        Ok(())
    }
}

// ---------------------------------------------------------------------------
// Ordered rows
// ---------------------------------------------------------------------------

/// The record stored under `k` in the rows `ks`/`rs`, if any.
pub open spec fn find_in(ks: Seq<Seq<char>>, rs: Seq<RevocationRecord>, k: Seq<char>) -> Option<
    RevocationRecord,
> {
    if ks.contains(k) {
        Some(rs[ks.index_of(k)])
    } else {
        None
    }
}

/// In sorted rows, the record under the `i`-th key is the `i`-th record.
pub proof fn lemma_find_at(ks: Seq<Seq<char>>, rs: Seq<RevocationRecord>, i: int)
    requires
        keys_sorted(ks),
        0 <= i < ks.len(),
    ensures
        find_in(ks, rs, ks[i]) == Some(rs[i]),
{
    assert(ks.contains(ks[i]));
    let j = ks.index_of(ks[i]);
    assert(0 <= j < ks.len() && ks[j] == ks[i]);
    lemma_seq_lt_irreflexive(ks[i]);
    if j < i {
        assert(seq_lt(ks[j], ks[i]));
    } else if i < j {
        assert(seq_lt(ks[i], ks[j]));
    }
}

/// Inserting a key at its sorted position makes its record findable and
/// leaves every other key's record as it was.
pub proof fn lemma_find_insert(
    ks: Seq<Seq<char>>,
    rs: Seq<RevocationRecord>,
    p: int,
    k: Seq<char>,
    rec: RevocationRecord,
    k2: Seq<char>,
)
    requires
        keys_sorted(ks),
        keys_sorted(ks.insert(p, k)),
        ks.len() == rs.len(),
        0 <= p <= ks.len(),
    ensures
        find_in(ks.insert(p, k), rs.insert(p, rec), k2) == if k2 == k {
            Some(rec)
        } else {
            find_in(ks, rs, k2)
        },
{
    let nks = ks.insert(p, k);
    let nrs = rs.insert(p, rec);
    assert(nks[p] == k);
    assert(nrs[p] == rec);
    if k2 == k {
        lemma_find_at(nks, nrs, p);
    } else if ks.contains(k2) {
        let i = choose|i: int| 0 <= i < ks.len() && ks[i] == k2;
        lemma_find_at(ks, rs, i);
        if i < p {
            assert(nks[i] == ks[i] && nrs[i] == rs[i]);
            lemma_find_at(nks, nrs, i);
        } else {
            assert(nks[i + 1] == ks[i] && nrs[i + 1] == rs[i]);
            lemma_find_at(nks, nrs, i + 1);
        }
    } else {
        if nks.contains(k2) {
            let j = choose|j: int| 0 <= j < nks.len() && nks[j] == k2;
            if j < p {
                assert(ks[j] == k2);
            } else if j > p {
                assert(ks[j - 1] == k2);
            }
        }
    }
}

/// Replacing the record at an existing key's position.
pub proof fn lemma_find_update(
    ks: Seq<Seq<char>>,
    rs: Seq<RevocationRecord>,
    p: int,
    rec: RevocationRecord,
    k2: Seq<char>,
)
    requires
        keys_sorted(ks),
        ks.len() == rs.len(),
        0 <= p < ks.len(),
    ensures
        find_in(ks, rs.update(p, rec), k2) == if k2 == ks[p] {
            Some(rec)
        } else {
            find_in(ks, rs, k2)
        },
{
    let nrs = rs.update(p, rec);
    if k2 == ks[p] {
        lemma_find_at(ks, nrs, p);
    } else if ks.contains(k2) {
        let i = choose|i: int| 0 <= i < ks.len() && ks[i] == k2;
        lemma_find_at(ks, rs, i);
        lemma_find_at(ks, nrs, i);
    }
}

/// What validation reports for the row `k` -> `r`: a non-canonical actor id,
/// then a key that differs from the record's actor id, then the record's own
/// rules.
pub open spec fn row_error(k: Seq<char>, r: RevocationRecord) -> Option<RevocationError> {
    if actor_id_error(r.actor_id) is Some {
        actor_id_error(r.actor_id)
    } else if k != r.actor_id {
        Some(RevocationError::InvalidActorId)
    } else {
        record_error(r)
    }
}

/// The error of the first failing row at or after `i`, in key order.
pub open spec fn first_row_error(ks: Seq<Seq<char>>, rs: Seq<RevocationRecord>, i: int) -> Option<
    RevocationError,
>
    decreases ks.len() - i,
{
    if i < 0 || i >= ks.len() {
        None
    } else if row_error(ks[i], rs[i]) is Some {
        row_error(ks[i], rs[i])
    } else {
        first_row_error(ks, rs, i + 1)
    }
}

/// What `revoke_at` does: on a rule violation, the error and no change; on
/// an actor already listed, `false` and no change; otherwise `true` and the
/// new record inserted at its place in key order.
pub open spec fn revoke_at_post(
    old: RevocationList,
    new: RevocationList,
    id: Seq<char>,
    reason: ReasonView,
    t: u64,
    r: Result<bool, RevocationError>,
) -> bool {
    &&& new.wf()
    &&& match r {
        Err(e) => request_error(id, reason, t) == Some(e) && new == old,
        Ok(inserted) => {
            &&& request_error(id, reason, t) is None
            &&& inserted == !old.key_seq().contains(id)
            &&& if inserted {
                exists|p: int|
                    0 <= p <= old.key_seq().len() && new.key_seq() == old.key_seq().insert(p, id)
                        && new.records() == old.records().insert(
                        p,
                        RevocationRecord { actor_id: id, reason, revoked_at: t },
                    )
            } else {
                new == old
            }
        },
    }
}

/// The rows that a sequence of (key, entry) pairs describes.
pub open spec fn pair_rows(ps: Seq<(String, RevocationEntry)>) -> Seq<(Seq<char>, RevocationRecord)> {
    ps.map_values(|p: (String, RevocationEntry)| (p.0@, p.1@))
}

/// The record that the last pair with key `k` carries, if any pair has it.
pub open spec fn last_record_for(ps: Seq<(Seq<char>, RevocationRecord)>, k: Seq<char>) -> Option<
    RevocationRecord,
>
    decreases ps.len(),
{
    if ps.len() == 0 {
        None
    } else if ps.last().0 == k {
        Some(ps.last().1)
    } else {
        last_record_for(ps.drop_last(), k)
    }
}

/// In-memory revocation list, kept in strict actor-id order.
#[derive(Debug, Clone, PartialEq, Eq)]
pub struct RevocationList {
    keys: Vec<String>,
    entries: Vec<RevocationEntry>,
}

impl RevocationList {
    /// The keys, in order.
    pub closed spec fn key_strings(&self) -> Seq<String> {
        self.keys@
    }

    /// The keys as character sequences, in order.
    pub open spec fn key_seq(&self) -> Seq<Seq<char>> {
        string_seq_views(self.key_strings())
    }

    /// The records, in key order.
    pub closed spec fn records(&self) -> Seq<RevocationRecord> {
        self.entries@.map_values(|e: RevocationEntry| e@)
    }

    /// One record per key, keys strictly increasing.
    pub open spec fn wf(&self) -> bool {
        &&& self.records().len() == self.key_seq().len()
        &&& keys_sorted(self.key_seq())
    }

    /// The record stored under `k`, if any.
    pub open spec fn find(&self, k: Seq<char>) -> Option<RevocationRecord> {
        find_in(self.key_seq(), self.records(), k)
    }

    /// The rows that `validate` reports on.
    pub open spec fn list_error(&self) -> Option<RevocationError> {
        first_row_error(self.key_seq(), self.records(), 0)
    }

    /// An empty revocation list.
    pub fn new() -> (r: Self)
        ensures
            r.wf(),
            r.key_seq().len() == 0,
    {
        RevocationList { keys: Vec::new(), entries: Vec::new() }
    }

    /// Number of revoked identities.
    pub fn len(&self) -> (r: usize)
        ensures
            r == self.key_seq().len(),
    {
        self.keys.len()
    }

    /// Whether no identity is revoked.
    pub fn is_empty(&self) -> (r: bool)
        ensures
            r == (self.key_seq().len() == 0),
    {
        self.keys.len() == 0
    }

    /// Position of `key`: where it is, or where it would be inserted.
    fn locate(&self, key: &[char]) -> (r: (usize, bool))
        requires
            self.wf(),
        ensures
            r.0 <= self.key_seq().len(),
            r.1 ==> r.0 < self.key_seq().len() && self.key_seq()[r.0 as int] == key@,
            !r.1 ==> forall|i: int| 0 <= i < self.key_seq().len() ==> (i < r.0 ==> seq_lt(#[trigger] self.key_seq()[i], key@)) && (r.0 <= i ==> seq_lt(key@, self.key_seq()[i])),
    {
        let ghost ks = self.key_seq();
        let n = self.keys.len();
        let mut i: usize = 0;
        while i < n
            invariant
                ks == self.key_seq(),
                n == ks.len(),
                keys_sorted(ks),
                i <= n,
                forall|j: int| 0 <= j < i ==> seq_lt(#[trigger] ks[j], key@),
            decreases n - i,
        {
            let ki = chars_of(self.keys[i].as_str());
            assert(ki@ == ks[i as int]);
            if crate::text::chars_eq(&ki, key) {
                return (i, true);
            }
            if chars_lt(key, &ki) {
                proof {
                    assert forall|j: int| 0 <= j < n implies (j < i ==> seq_lt(#[trigger] ks[j], key@)) && (i <= j ==> seq_lt(key@, ks[j])) by {
                        if i < j {
                            lemma_seq_lt_transitive(key@, ks[i as int], ks[j]);
                        }
                    }
                }
                return (i, false);
            }
            proof {
                lemma_seq_lt_total(ki@, key@);
            }
            i += 1;
        }
        (n, false)
    }

    /// Inserts a row at a position between smaller and larger keys.
    fn insert_row(&mut self, p: usize, key: String, entry: RevocationEntry)
        requires
            old(self).wf(),
            p <= old(self).key_seq().len(),
            forall|i: int| 0 <= i < p ==> seq_lt(#[trigger] old(self).key_seq()[i], key@),
            forall|i: int| p <= i < old(self).key_seq().len() ==> seq_lt(key@, #[trigger] old(self).key_seq()[i]),
        ensures
            final(self).wf(),
            final(self).key_strings() == old(self).key_strings().insert(p as int, key),
            final(self).key_seq() == old(self).key_seq().insert(p as int, key@),
            final(self).records() == old(self).records().insert(p as int, entry@),
    {
        let ghost ks = self.key_seq();
        let ghost k = key@;
        let ghost e = entry@;
        proof {
            lemma_sorted_insert(ks, p as int, k);
        }
        self.keys.insert(p, key);
        self.entries.insert(p, entry);
        assert(self.key_seq() =~= ks.insert(p as int, k));
        assert(self.records() =~= old(self).records().insert(p as int, e));
    }

    /// Revokes an actor identity at an explicit timestamp: `Ok(true)` when
    /// newly revoked, `Ok(false)` when already revoked (the first record
    /// stays).
    pub fn revoke_at(&mut self, actor_id: &str, reason: RevocationReason, revoked_at: u64) -> (r:
        Result<bool, RevocationError>)
        requires
            old(self).wf(),
        ensures
            revoke_at_post(*old(self), *final(self), actor_id@, reason@, revoked_at, r),
    {
        let canonical = match canonicalize_actor_id(actor_id) {
            Ok(c) => c,
            Err(e) => return Err(e),
        };
        let canonical_reason = match reason.canonicalize() {
            Ok(x) => x,
            Err(e) => return Err(e),
        };
        if revoked_at == 0 {
            return Err(RevocationError::InvalidRevokedAt);
        }
        let cs = chars_of(actor_id);
        let (p, found) = self.locate(&cs);
        if found {
            proof {
                assert(self.key_seq()[p as int] == actor_id@);
            }
            return Ok(false);
        }
        proof {
            lemma_absent_between(self.key_seq(), p as int, actor_id@);
        }
        let entry = RevocationEntry { actor_id: canonical.clone(), reason: canonical_reason, revoked_at };
        self.insert_row(p, canonical, entry);
        Ok(true)
    }

    /// Whether an actor identity is revoked; a non-canonical identifier is
    /// never revoked.
    pub fn is_revoked(&self, actor_id: &str) -> (r: bool)
        requires
            self.wf(),
        ensures
            r == (actor_id_error(actor_id@) is None && self.key_seq().contains(actor_id@)),
    {
        if canonicalize_actor_id(actor_id).is_err() {
            return false;
        }
        let cs = chars_of(actor_id);
        let (p, found) = self.locate(&cs);
        if !found {
            proof {
                lemma_absent_between(self.key_seq(), p as int, actor_id@);
            }
        } else {
            assert(self.key_seq()[p as int] == actor_id@);
        }
        found
    }

    /// The revocation record of an actor, if any; a non-canonical identifier
    /// has none.
    pub fn get(&self, actor_id: &str) -> (r: Option<&RevocationEntry>)
        requires
            self.wf(),
        ensures
            match r {
                Some(e) => actor_id_error(actor_id@) is None && self.find(actor_id@) == Some(e@),
                None => actor_id_error(actor_id@) is Some || self.find(actor_id@) is None,
            },
    {
        if canonicalize_actor_id(actor_id).is_err() {
            return None;
        }
        let cs = chars_of(actor_id);
        let (p, found) = self.locate(&cs);
        if !found {
            proof {
                lemma_absent_between(self.key_seq(), p as int, actor_id@);
            }
            return None;
        }
        proof {
            lemma_find_at(self.key_seq(), self.records(), p as int);
        }
        Some(&self.entries[p])
    }

    /// Revokes an actor identity at the current system time. Fails with
    /// `TimeError`, changing nothing, when the clock is unusable; otherwise
    /// acts as `revoke_at` at the time read.
    pub fn try_revoke(&mut self, actor_id: &str, reason: RevocationReason) -> (r: Result<
        bool,
        RevocationError,
    >)
        requires
            old(self).wf(),
        ensures
            final(self).wf(),
            (r == Err::<bool, RevocationError>(RevocationError::TimeError) && *final(self) == *old(self))
                || exists|t: u64| revoke_at_post(*old(self), *final(self), actor_id@, reason@, t, r),
    {
        let now = match unix_time_seconds() {
            Some(t) => t,
            None => return Err(RevocationError::TimeError),
        };
        self.revoke_at(actor_id, reason, now)
    }

    /// Revokes an actor identity at the current system time, ignoring invalid
    /// input and clock failures: either nothing changes or the record is
    /// inserted as `revoke_at` would insert it at the time read.
    pub fn revoke(&mut self, actor_id: &str, reason: RevocationReason)
        requires
            old(self).wf(),
        ensures
            final(self).wf(),
            *final(self) == *old(self) || exists|t: u64|
                revoke_at_post(*old(self), *final(self), actor_id@, reason@, t, Ok(true)),
    {
        let _ = self.try_revoke(actor_id, reason);
    }

    /// Stores `entry` under `key`, replacing a record already stored there.
    fn upsert(&mut self, key: String, entry: RevocationEntry)
        requires
            old(self).wf(),
        ensures
            final(self).wf(),
            forall|k: Seq<char>| #[trigger] final(self).find(k) == if k == key@ {
                Some(entry@)
            } else {
                old(self).find(k)
            },
    {
        let ghost ks = self.key_seq();
        let ghost rs = self.records();
        let ghost kv = key@;
        let ghost ev = entry@;
        let cs = chars_of(key.as_str());
        let (p, found) = self.locate(&cs);
        if found {
            self.entries.set(p, entry);
            assert(self.records() =~= rs.update(p as int, ev));
            assert forall|k: Seq<char>| #[trigger] self.find(k) == if k == kv {
                Some(ev)
            } else {
                find_in(ks, rs, k)
            } by {
                lemma_find_update(ks, rs, p as int, ev, k);
            }
        } else {
            self.insert_row(p, key, entry);
            assert forall|k: Seq<char>| #[trigger] self.find(k) == if k == kv {
                Some(ev)
            } else {
                find_in(ks, rs, k)
            } by {
                lemma_find_insert(ks, rs, p as int, kv, ev, k);
            }
        }
    }

    /// Builds a list from (key, entry) pairs as an ordered map would: keys in
    /// order, and for a key given twice the later entry. Nothing is validated
    /// (see `validate`).
    pub fn from_pairs(pairs: Vec<(String, RevocationEntry)>) -> (r: Self)
        ensures
            r.wf(),
            forall|k: Seq<char>| #[trigger] r.find(k) == last_record_for(pair_rows(pairs@), k),
    {
        let ghost rows = pair_rows(pairs@);
        let mut out = RevocationList::new();
        let n = pairs.len();
        let mut i: usize = 0;
        while i < n
            invariant
                n == pairs@.len(),
                rows == pair_rows(pairs@),
                i <= n,
                out.wf(),
                forall|k: Seq<char>| #[trigger] out.find(k) == last_record_for(rows.take(i as int), k),
            decreases n - i,
        {
            let key = pairs[i].0.clone();
            let entry = pairs[i].1.duplicate();
            let ghost before = out;
            out.upsert(key, entry);
            proof {
                assert(rows.take(i + 1 as int).drop_last() =~= rows.take(i as int));
                assert(rows.take(i + 1 as int).last() == rows[i as int]);
                assert forall|k: Seq<char>| #[trigger] out.find(k) == last_record_for(rows.take(i + 1 as int), k) by {
                    assert(last_record_for(rows.take(i + 1 as int), k) == if rows[i as int].0 == k {
                        Some(rows[i as int].1)
                    } else {
                        last_record_for(rows.take(i as int), k)
                    });
                    assert(before.find(k) == last_record_for(rows.take(i as int), k));
                }
            }
            i += 1;
        }
        assert(rows.take(n as int) =~= rows);
        out
    }

    /// Checks every row in key order: the actor id must be canonical and
    /// equal to its key, and the record must satisfy the record rules. The
    /// first failing row's error is returned.
    pub fn validate(&self) -> (r: Result<(), RevocationError>)
        requires
            self.wf(),
        ensures
            r == unit_outcome(self.list_error()),
    {
        let ghost ks = self.key_seq();
        let ghost rs = self.records();
        let n = self.keys.len();
        let mut i: usize = 0;
        while i < n
            invariant
                ks == self.key_seq(),
                rs == self.records(),
                n == ks.len(),
                n == rs.len(),
                i <= n,
                first_row_error(ks, rs, 0) == first_row_error(ks, rs, i as int),
            decreases n - i,
        {
            let entry = &self.entries[i];
            assert(rs[i as int] == entry@);
            assert(ks[i as int] == self.keys@[i as int]@);
            match canonicalize_actor_id(entry.actor_id.as_str()) {
                Err(e) => return Err(e),
                Ok(c) => {
                    if self.keys[i] != c {
                        return Err(RevocationError::InvalidActorId);
                    }
                },
            }
            match entry.validate() {
                Err(e) => return Err(e),
                Ok(()) => {},
            }
            i += 1;
        }
        Ok(())
    }

    /// The revoked actor ids, in key order.
    pub fn export_actor_ids(&self) -> (r: Vec<String>)
        requires
            self.wf(),
        ensures
            r@ == self.key_strings(),
            keys_sorted(string_seq_views(r@)),
    {
        let n = self.keys.len();
        let mut out: Vec<String> = Vec::new();
        let mut i: usize = 0;
        while i < n
            invariant
                n == self.key_strings().len(),
                i <= n,
                out@ == self.key_strings().take(i as int),
            decreases n - i,
        {
            out.push(self.keys[i].clone());
            i += 1;
            assert(out@ =~= self.key_strings().take(i as int));
        }
        assert(out@ =~= self.key_strings());
        out
    }

    /// The revocation records, in key order.
    pub fn export_entries(&self) -> (r: Vec<RevocationEntry>)
        requires
            self.wf(),
        ensures
            r@.map_values(|e: RevocationEntry| e@) == self.records(),
    {
        let n = self.entries.len();
        let mut out: Vec<RevocationEntry> = Vec::new();
        let mut i: usize = 0;
        while i < n
            invariant
                n == self.entries@.len(),
                i <= n,
                out@ == self.entries@.take(i as int),
            decreases n - i,
        {
            out.push(self.entries[i].duplicate());
            i += 1;
            assert(out@ =~= self.entries@.take(i as int));
        }
        assert(out@ =~= self.entries@);
        out
    }

    /// The revoked actor ids as a set (under the hash-key model of `String`).
    pub fn export_set(&self) -> (r: HashSet<String>)
        requires
            self.wf(),
        ensures
            vstd::std_specs::hash::obeys_key_model::<String>() ==> r@ == self.key_strings().to_set(),
    {
        broadcast use vstd::std_specs::hash::group_hash_axioms;
        let n = self.keys.len();
        let mut out: HashSet<String> = HashSet::new();
        let mut i: usize = 0;
        while i < n
            invariant
                n == self.key_strings().len(),
                i <= n,
                vstd::std_specs::hash::obeys_key_model::<String>() ==> out@ == self.key_strings().take(i as int).to_set(),
            decreases n - i,
        {
            out.insert(self.keys[i].clone());
            proof {
                assert(self.key_strings().take(i + 1 as int) =~= self.key_strings().take(i as int).push(self.keys@[i as int]));
                self.key_strings().take(i as int).lemma_push_to_set_commute(self.keys@[i as int]);
            }
            i += 1;
        }
        assert(self.key_strings().take(n as int) =~= self.key_strings());
        out
    }
}

impl Default for RevocationList {
    fn default() -> (r: Self)
        ensures
            r.wf(),
            r.key_seq().len() == 0,
    {
        RevocationList::new()
    }
}

// ---------------------------------------------------------------------------
// Laws
// ---------------------------------------------------------------------------

/// No row at or after `i` fails exactly when none is reported.
proof fn lemma_first_row_error_none(ks: Seq<Seq<char>>, rs: Seq<RevocationRecord>, i: int)
    requires
        0 <= i <= ks.len(),
    ensures
        (first_row_error(ks, rs, i) is None) == (forall|j: int|
            i <= j < ks.len() ==> (#[trigger] row_error(ks[j], rs[j])) is None),
    decreases ks.len() - i,
{
    if i < ks.len() {
        lemma_first_row_error_none(ks, rs, i + 1);
    }
}

/// After a successful `revoke_at`, the actor is listed; a new record is the
/// one requested and the list grows by one, an existing one is kept and the
/// length stays; no other actor's record changes.
pub proof fn law_revoked_after_revoke_at(
    old: RevocationList,
    new: RevocationList,
    id: Seq<char>,
    reason: ReasonView,
    t: u64,
    r: Result<bool, RevocationError>,
    other: Seq<char>,
)
    requires
        old.wf(),
        revoke_at_post(old, new, id, reason, t, r),
        r is Ok,
    ensures
        new.key_seq().contains(id),
        r == Ok::<bool, RevocationError>(true) ==> new.key_seq().len() == old.key_seq().len() + 1,
        r == Ok::<bool, RevocationError>(false) ==> new.key_seq().len() == old.key_seq().len(),
        r == Ok::<bool, RevocationError>(true) ==> new.find(id) == Some(
            RevocationRecord { actor_id: id, reason, revoked_at: t },
        ),
        r == Ok::<bool, RevocationError>(false) ==> new.find(id) == old.find(id),
        other != id ==> new.find(other) == old.find(other),
{
    if r == Ok::<bool, RevocationError>(true) {
        let p = choose|p: int|
            0 <= p <= old.key_seq().len() && new.key_seq() == old.key_seq().insert(p, id)
                && new.records() == old.records().insert(
                p,
                RevocationRecord { actor_id: id, reason, revoked_at: t },
            );
        let rec = RevocationRecord { actor_id: id, reason, revoked_at: t };
        assert(new.key_seq()[p] == id);
        lemma_find_insert(old.key_seq(), old.records(), p, id, rec, id);
        lemma_find_insert(old.key_seq(), old.records(), p, id, rec, other);
    }
}

/// Revoking an actor that is already listed, with a valid request, answers
/// `Ok(false)` and changes nothing: the first record stays.
pub proof fn law_second_revoke_keeps_first(
    l0: RevocationList,
    l1: RevocationList,
    l2: RevocationList,
    id: Seq<char>,
    reason1: ReasonView,
    t1: u64,
    r1: Result<bool, RevocationError>,
    reason2: ReasonView,
    t2: u64,
    r2: Result<bool, RevocationError>,
)
    requires
        l0.wf(),
        revoke_at_post(l0, l1, id, reason1, t1, r1),
        r1 is Ok,
        revoke_at_post(l1, l2, id, reason2, t2, r2),
        request_error(id, reason2, t2) is None,
    ensures
        r2 == Ok::<bool, RevocationError>(false),
        l2 == l1,
{
    law_revoked_after_revoke_at(l0, l1, id, reason1, t1, r1, id);
}

/// `revoke_at` keeps a list that validates valid.
pub proof fn law_revoke_at_keeps_valid(
    old: RevocationList,
    new: RevocationList,
    id: Seq<char>,
    reason: ReasonView,
    t: u64,
    r: Result<bool, RevocationError>,
)
    requires
        old.wf(),
        old.list_error() is None,
        revoke_at_post(old, new, id, reason, t, r),
    ensures
        new.list_error() is None,
{
    let ks = old.key_seq();
    let rs = old.records();
    lemma_first_row_error_none(ks, rs, 0);
    if r == Ok::<bool, RevocationError>(true) {
        let rec = RevocationRecord { actor_id: id, reason, revoked_at: t };
        let p = choose|p: int|
            0 <= p <= ks.len() && new.key_seq() == ks.insert(p, id) && new.records() == rs.insert(
                p,
                rec,
            );
        let nks = new.key_seq();
        let nrs = new.records();
        assert forall|j: int| 0 <= j < nks.len() implies (#[trigger] row_error(nks[j], nrs[j])) is None by {
            if j < p {
                assert(nks[j] == ks[j] && nrs[j] == rs[j]);
                assert(row_error(ks[j], rs[j]) is None);
            } else if j == p {
                assert(nks[j] == id && nrs[j] == rec);
            } else {
                assert(nks[j] == ks[j - 1] && nrs[j] == rs[j - 1]);
                assert(row_error(ks[j - 1], rs[j - 1]) is None);
            }
        }
        lemma_first_row_error_none(nks, nrs, 0);
    }
}

/// A list that validates keeps, under each key, a record for that very
/// actor id; every key is a canonical actor id and every record keeps the
/// record rules.
pub proof fn law_valid_list_rows(l: RevocationList)
    requires
        l.wf(),
        l.list_error() is None,
    ensures
        forall|j: int|
            0 <= j < l.key_seq().len() ==> actor_id_error(#[trigger] l.key_seq()[j]) is None
                && l.records()[j].actor_id == l.key_seq()[j] && record_error(l.records()[j]) is None,
{
    let ks = l.key_seq();
    let rs = l.records();
    lemma_first_row_error_none(ks, rs, 0);
    assert forall|j: int| 0 <= j < ks.len() implies actor_id_error(#[trigger] ks[j]) is None
        && rs[j].actor_id == ks[j] && record_error(rs[j]) is None by {
        assert(row_error(ks[j], rs[j]) is None);
    }
}

} // verus!
