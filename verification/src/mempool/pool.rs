//! Bounded FIFO mempool with admission controls, duplicate suppression,
//! expiry and telemetry counters.
//!
//! The queue is the single source of truth: identifiers are unique in it,
//! the byte total is the sum of its payload sizes, and its length and byte
//! total stay within the configured bounds. Before each operation the clock
//! is read once and the age of every live entry taken; exactly the leading
//! entries whose age reached the time-to-live are evicted
//! (`purge_expired_with` decides this from the ages), and the contracts say
//! what the operation then does with the rest. The ages themselves come from
//! the clock, so nothing is claimed about their values.

use vstd::prelude::*;

use std::collections::VecDeque;
use std::time::Duration;
use std::time::Instant;

use crate::platform::duration_as_nanos;
use crate::platform::duration_nanos;
use crate::platform::instant_elapsed_nanos;
use crate::platform::instant_now;
use crate::text::all_zero;
use crate::text::bytes_eq;
use crate::text::dec_digits;
use crate::text::push_decimal_u64;
use crate::text::push_str;
use crate::text::str_to_string;
use crate::text::string_from_chars;

verus! {

/// Canonical transaction identifier width in bytes.
pub const TX_ID_LEN: usize = 32;

/// Severity classification for mempool-level failures.
#[derive(Debug, Clone, Copy, PartialEq, Eq, Structural, Hash)]
pub enum MempoolErrorSeverity {
    Warning,
    Error,
    Critical,
}

impl MempoolErrorSeverity {
    pub fn as_str(self) -> (r: &'static str)
        ensures
            r@ == match self {
                MempoolErrorSeverity::Warning => "WARN"@,
                MempoolErrorSeverity::Error => "ERROR"@,
                MempoolErrorSeverity::Critical => "CRITICAL"@,
            },
    {
        match self {
            MempoolErrorSeverity::Warning => "WARN",
            MempoolErrorSeverity::Error => "ERROR",
            MempoolErrorSeverity::Critical => "CRITICAL",
        }
    }
}

/// Category classification for mempool-level failures.
#[derive(Debug, Clone, Copy, PartialEq, Eq, Structural, Hash)]
pub enum MempoolErrorCategory {
    Config,
    Admission,
    Capacity,
    Integrity,
}

impl MempoolErrorCategory {
    pub fn as_str(self) -> (r: &'static str)
        ensures
            r@ == match self {
                MempoolErrorCategory::Config => "CONFIG"@,
                MempoolErrorCategory::Admission => "ADMISSION"@,
                MempoolErrorCategory::Capacity => "CAPACITY"@,
                MempoolErrorCategory::Integrity => "INTEGRITY"@,
            },
    {
        match self {
            MempoolErrorCategory::Config => "CONFIG",
            MempoolErrorCategory::Admission => "ADMISSION",
            MempoolErrorCategory::Capacity => "CAPACITY",
            MempoolErrorCategory::Integrity => "INTEGRITY",
        }
    }
}

/// Channel by which a transaction entered the admission pipeline.
#[derive(Debug, Clone, Copy, PartialEq, Eq, Structural, Hash)]
pub enum AdmissionSource {
    Rpc,
    P2P,
    Internal,
    Recovery,
}

impl AdmissionSource {
    pub fn as_str(self) -> (r: &'static str)
        ensures
            r@ == match self {
                AdmissionSource::Rpc => "RPC"@,
                AdmissionSource::P2P => "P2P"@,
                AdmissionSource::Internal => "INTERNAL"@,
                AdmissionSource::Recovery => "RECOVERY"@,
            },
    {
        match self {
            AdmissionSource::Rpc => "RPC",
            AdmissionSource::P2P => "P2P",
            AdmissionSource::Internal => "INTERNAL",
            AdmissionSource::Recovery => "RECOVERY",
        }
    }
}

/// Priority label recorded at admission time (it does not change FIFO order).
#[derive(Debug, Clone, Copy, PartialEq, Eq, Structural, Hash, PartialOrd, Ord)]
pub enum AdmissionPriority {
    Low,
    Normal,
    High,
    Critical,
}

impl AdmissionPriority {
    pub fn as_str(self) -> (r: &'static str)
        ensures
            r@ == match self {
                AdmissionPriority::Low => "LOW"@,
                AdmissionPriority::Normal => "NORMAL"@,
                AdmissionPriority::High => "HIGH"@,
                AdmissionPriority::Critical => "CRITICAL"@,
            },
    {
        match self {
            AdmissionPriority::Low => "LOW",
            AdmissionPriority::Normal => "NORMAL",
            AdmissionPriority::High => "HIGH",
            AdmissionPriority::Critical => "CRITICAL",
        }
    }
}

/// Admission metadata attached to a transaction.
#[derive(Debug, Clone, Copy, PartialEq, Eq)]
pub struct AdmissionMeta {
    pub received_at: Instant,
    pub inserted_at: Instant,
    pub source: AdmissionSource,
    pub priority: AdmissionPriority,
}

impl AdmissionMeta {
    /// Metadata stamped with the current monotonic instant.
    pub fn now(source: AdmissionSource, priority: AdmissionPriority) -> (r: Self)
        ensures
            r.source == source,
            r.priority == priority,
            r.received_at == r.inserted_at,
    {
        let now = instant_now();
        AdmissionMeta { received_at: now, inserted_at: now, source, priority }
    }
}

impl Default for AdmissionMeta {
    fn default() -> (r: Self)
        ensures
            r.source == AdmissionSource::Rpc,
            r.priority == AdmissionPriority::Normal,
    {
        AdmissionMeta::now(AdmissionSource::Rpc, AdmissionPriority::Normal)
    }
}

/// Model of a transaction: identifier, payload and metadata.
pub struct TxView {
    pub id: Seq<u8>,
    pub payload: Seq<u8>,
    pub meta: AdmissionMeta,
}

/// Transaction retained by the mempool.
#[derive(Debug, Clone)]
pub struct Transaction {
    id: [u8; TX_ID_LEN],
    payload: Vec<u8>,
    meta: AdmissionMeta,
}

impl View for Transaction {
    type V = TxView;

    closed spec fn view(&self) -> TxView {
        TxView { id: self.id@, payload: self.payload@, meta: self.meta }
    }
}

pub open spec fn id_is_zero(id: Seq<u8>) -> bool {
    forall|i: int| 0 <= i < id.len() ==> id[i] == 0
}

impl Transaction {
    /// A transaction with default admission metadata (RPC, normal priority).
    pub fn new(id: [u8; TX_ID_LEN], payload: Vec<u8>) -> (r: Self)
        ensures
            r@.id == id@,
            r@.payload == payload@,
            r@.meta.source == AdmissionSource::Rpc,
            r@.meta.priority == AdmissionPriority::Normal,
    {
        Transaction { id, payload, meta: AdmissionMeta::default() }
    }

    /// A transaction with explicit admission metadata.
    pub fn new_with_meta(id: [u8; TX_ID_LEN], payload: Vec<u8>, meta: AdmissionMeta) -> (r: Self)
        ensures
            r@ == (TxView { id: id@, payload: payload@, meta }),
    {
        Transaction { id, payload, meta }
    }

    /// The transaction identifier.
    pub fn id(&self) -> (r: &[u8; TX_ID_LEN])
        ensures
            r@ == self@.id,
    {
        &self.id
    }

    /// The payload bytes.
    pub fn payload(&self) -> (r: &[u8])
        ensures
            r@ == self@.payload,
    {
        self.payload.as_slice()
    }

    /// Payload length in bytes.
    pub fn size(&self) -> (r: usize)
        ensures
            r == self@.payload.len(),
    {
        self.payload.len()
    }

    /// Admission metadata.
    pub fn meta(&self) -> (r: AdmissionMeta)
        ensures
            r == self@.meta,
    {
        self.meta
    }

    /// Whether the identifier is all zero bytes.
    pub fn has_zero_id(&self) -> (r: bool)
        ensures
            r == id_is_zero(self@.id),
    {
        all_zero(self.id.as_slice())
    }
}

proof fn lemma_tx_id_len(t: Transaction)
    ensures
        t@.id.len() == TX_ID_LEN,
{
}

/// Resource bounds and retention policy.
#[derive(Debug, Clone, Copy, PartialEq, Eq)]
pub struct MempoolConfig {
    pub max_txs: usize,
    pub max_tx_size: usize,
    pub max_total_bytes: usize,
    pub tx_ttl: Duration,
}

/// The problem with a configuration, if any, as the message the error carries.
pub open spec fn config_problem(c: MempoolConfig) -> Option<Seq<char>> {
    if c.max_txs == 0 {
        Some("max_txs must be greater than zero"@)
    } else if c.max_tx_size == 0 {
        Some("max_tx_size must be greater than zero"@)
    } else if c.max_total_bytes == 0 {
        Some("max_total_bytes must be greater than zero"@)
    } else if c.max_tx_size > c.max_total_bytes {
        Some("max_tx_size cannot exceed max_total_bytes"@)
    } else if duration_nanos(c.tx_ttl) == 0 {
        Some("tx_ttl must be greater than zero"@)
    } else {
        None
    }
}

impl MempoolConfig {
    /// Validates the configuration and hands it back.
    pub fn validate(self) -> (r: Result<Self, MempoolError>)
        ensures
            r is Ok <==> config_problem(self) is None,
            r is Ok ==> r->Ok_0 == self,
            r is Err ==> (r->Err_0 matches MempoolError::InvalidConfig(m) && config_problem(self)
                == Some(m@)),
    {
        if self.max_txs == 0 {
            return Err(MempoolError::InvalidConfig("max_txs must be greater than zero"));
        }
        if self.max_tx_size == 0 {
            return Err(MempoolError::InvalidConfig("max_tx_size must be greater than zero"));
        }
        if self.max_total_bytes == 0 {
            return Err(MempoolError::InvalidConfig("max_total_bytes must be greater than zero"));
        }
        if self.max_tx_size > self.max_total_bytes {
            return Err(MempoolError::InvalidConfig("max_tx_size cannot exceed max_total_bytes"));
        }
        if duration_as_nanos(self.tx_ttl) == 0 {
            return Err(MempoolError::InvalidConfig("tx_ttl must be greater than zero"));
        }
        Ok(self)
    }
}

/// Mempool-level failures.
#[derive(Debug, Clone, PartialEq, Eq)]
pub enum MempoolError {
    InvalidConfig(&'static str),
    ZeroTransactionId,
    EmptyTransaction,
    TransactionTooLarge { size: usize, max_allowed: usize },
    DuplicateTransaction,
    MempoolFull { max_txs: usize },
    TotalBytesExceeded { current_bytes: usize, tx_size: usize, max_allowed: usize },
}

impl MempoolError {
    pub open spec fn code_text(&self) -> Seq<char> {
        match self {
            MempoolError::InvalidConfig(_) => "MEMPOOL_INVALID_CONFIG"@,
            MempoolError::ZeroTransactionId => "MEMPOOL_ZERO_TRANSACTION_ID"@,
            MempoolError::EmptyTransaction => "MEMPOOL_EMPTY_TRANSACTION"@,
            MempoolError::TransactionTooLarge { .. } => "MEMPOOL_TRANSACTION_TOO_LARGE"@,
            MempoolError::DuplicateTransaction => "MEMPOOL_DUPLICATE_TRANSACTION"@,
            MempoolError::MempoolFull { .. } => "MEMPOOL_FULL"@,
            MempoolError::TotalBytesExceeded { .. } => "MEMPOOL_TOTAL_BYTES_EXCEEDED"@,
        }
    }

    /// Stable error code.
    pub fn code(&self) -> (r: &'static str)
        ensures
            r@ == self.code_text(),
    {
        match self {
            MempoolError::InvalidConfig(_) => "MEMPOOL_INVALID_CONFIG",
            MempoolError::ZeroTransactionId => "MEMPOOL_ZERO_TRANSACTION_ID",
            MempoolError::EmptyTransaction => "MEMPOOL_EMPTY_TRANSACTION",
            MempoolError::TransactionTooLarge { .. } => "MEMPOOL_TRANSACTION_TOO_LARGE",
            MempoolError::DuplicateTransaction => "MEMPOOL_DUPLICATE_TRANSACTION",
            MempoolError::MempoolFull { .. } => "MEMPOOL_FULL",
            MempoolError::TotalBytesExceeded { .. } => "MEMPOOL_TOTAL_BYTES_EXCEEDED",
        }
    }

    pub open spec fn category_of(&self) -> MempoolErrorCategory {
        match self {
            MempoolError::InvalidConfig(_) => MempoolErrorCategory::Config,
            MempoolError::ZeroTransactionId | MempoolError::DuplicateTransaction => MempoolErrorCategory::Integrity,
            MempoolError::EmptyTransaction | MempoolError::TransactionTooLarge { .. } => MempoolErrorCategory::Admission,
            MempoolError::MempoolFull { .. } | MempoolError::TotalBytesExceeded { .. } => MempoolErrorCategory::Capacity,
        }
    }

    /// Category of the failure.
    pub fn category(&self) -> (r: MempoolErrorCategory)
        ensures
            r == self.category_of(),
    {
        match self {
            MempoolError::InvalidConfig(_) => MempoolErrorCategory::Config,
            MempoolError::ZeroTransactionId | MempoolError::DuplicateTransaction => MempoolErrorCategory::Integrity,
            MempoolError::EmptyTransaction | MempoolError::TransactionTooLarge { .. } => MempoolErrorCategory::Admission,
            MempoolError::MempoolFull { .. } | MempoolError::TotalBytesExceeded { .. } => MempoolErrorCategory::Capacity,
        }
    }

    pub open spec fn severity_of(&self) -> MempoolErrorSeverity {
        match self {
            MempoolError::InvalidConfig(_) => MempoolErrorSeverity::Critical,
            MempoolError::ZeroTransactionId | MempoolError::DuplicateTransaction => MempoolErrorSeverity::Error,
            _ => MempoolErrorSeverity::Warning,
        }
    }

    /// Severity of the failure.
    pub fn severity(&self) -> (r: MempoolErrorSeverity)
        ensures
            r == self.severity_of(),
    {
        match self {
            MempoolError::InvalidConfig(_) => MempoolErrorSeverity::Critical,
            MempoolError::ZeroTransactionId | MempoolError::DuplicateTransaction => MempoolErrorSeverity::Error,
            MempoolError::EmptyTransaction | MempoolError::TransactionTooLarge { .. } => MempoolErrorSeverity::Warning,
            MempoolError::MempoolFull { .. } | MempoolError::TotalBytesExceeded { .. } => MempoolErrorSeverity::Warning,
        }
    }

    pub open spec fn message_text(&self) -> Seq<char> {
        match self {
            MempoolError::InvalidConfig(msg) => "invalid mempool config: "@ + msg@,
            MempoolError::ZeroTransactionId => "transaction identifier must not be all-zero"@,
            MempoolError::EmptyTransaction => "transaction payload must not be empty"@,
            MempoolError::TransactionTooLarge { size, max_allowed } => "transaction size "@
                + dec_digits(*size as nat) + " exceeds max allowed size "@ + dec_digits(
                *max_allowed as nat,
            ),
            MempoolError::DuplicateTransaction => "transaction already exists in mempool"@,
            MempoolError::MempoolFull { max_txs } => "mempool has reached max transaction capacity "@
                + dec_digits(*max_txs as nat),
            MempoolError::TotalBytesExceeded { current_bytes, tx_size, max_allowed } =>
                "adding transaction of size "@ + dec_digits(*tx_size as nat)
                + " would exceed max total bytes "@ + dec_digits(*max_allowed as nat)
                + "; current bytes "@ + dec_digits(*current_bytes as nat),
        }
    }

    /// Human-readable description of the failure.
    pub fn message(&self) -> (r: String)
        ensures
            r@ == self.message_text(),
    {
        let mut out: Vec<char> = Vec::new();
        match self {
            MempoolError::InvalidConfig(msg) => {
                push_str(&mut out, "invalid mempool config: ");
                push_str(&mut out, msg);
            },
            MempoolError::ZeroTransactionId => {
                return str_to_string("transaction identifier must not be all-zero");
            },
            MempoolError::EmptyTransaction => {
                return str_to_string("transaction payload must not be empty");
            },
            MempoolError::TransactionTooLarge { size, max_allowed } => {
                push_str(&mut out, "transaction size ");
                push_decimal_u64(&mut out, *size as u64);
                push_str(&mut out, " exceeds max allowed size ");
                push_decimal_u64(&mut out, *max_allowed as u64);
            },
            MempoolError::DuplicateTransaction => {
                return str_to_string("transaction already exists in mempool");
            },
            MempoolError::MempoolFull { max_txs } => {
                push_str(&mut out, "mempool has reached max transaction capacity ");
                push_decimal_u64(&mut out, *max_txs as u64);
            },
            MempoolError::TotalBytesExceeded { current_bytes, tx_size, max_allowed } => {
                push_str(&mut out, "adding transaction of size ");
                push_decimal_u64(&mut out, *tx_size as u64);
                push_str(&mut out, " would exceed max total bytes ");
                push_decimal_u64(&mut out, *max_allowed as u64);
                push_str(&mut out, "; current bytes ");
                push_decimal_u64(&mut out, *current_bytes as u64);
            },
        }
        proof {
            assert(out@ =~= self.message_text());
        }
        string_from_chars(&out)
    }
}

/// Transaction record returned by collection.
#[derive(Debug, Clone)]
pub struct CollectedTransaction {
    pub id: [u8; TX_ID_LEN],
    pub payload: Vec<u8>,
    pub meta: AdmissionMeta,
}

/// Cumulative rejection counters by reason.
#[derive(Debug, Clone, Copy, PartialEq, Eq, Structural)]
pub struct RejectionStats {
    pub zero_id: u64,
    pub empty: u64,
    pub oversized: u64,
    pub duplicate: u64,
    pub full: u64,
    pub bytes_exceeded: u64,
}

impl Default for RejectionStats {
    fn default() -> (r: Self)
        ensures
            r == (RejectionStats { zero_id: 0, empty: 0, oversized: 0, duplicate: 0, full: 0, bytes_exceeded: 0 }),
    {
        RejectionStats { zero_id: 0, empty: 0, oversized: 0, duplicate: 0, full: 0, bytes_exceeded: 0 }
    }
}

/// Cumulative lifecycle counters.
#[derive(Debug, Clone, Copy, PartialEq, Eq, Structural)]
pub struct LifecycleStats {
    pub accepted: u64,
    pub expired_evictions: u64,
    pub explicit_removals: u64,
    pub collected: u64,
    pub clears: u64,
}

impl Default for LifecycleStats {
    fn default() -> (r: Self)
        ensures
            r == (LifecycleStats { accepted: 0, expired_evictions: 0, explicit_removals: 0, collected: 0, clears: 0 }),
    {
        LifecycleStats { accepted: 0, expired_evictions: 0, explicit_removals: 0, collected: 0, clears: 0 }
    }
}

/// Per-source admission counters.
#[derive(Debug, Clone, Copy, PartialEq, Eq, Structural)]
pub struct SourceStats {
    pub rpc: u64,
    pub p2p: u64,
    pub internal: u64,
    pub recovery: u64,
}

impl Default for SourceStats {
    fn default() -> (r: Self)
        ensures
            r == (SourceStats { rpc: 0, p2p: 0, internal: 0, recovery: 0 }),
    {
        SourceStats { rpc: 0, p2p: 0, internal: 0, recovery: 0 }
    }
}

pub open spec fn bump_source(s: SourceStats, source: AdmissionSource) -> SourceStats {
    match source {
        AdmissionSource::Rpc => SourceStats { rpc: (s.rpc + 1) as u64, ..s },
        AdmissionSource::P2P => SourceStats { p2p: (s.p2p + 1) as u64, ..s },
        AdmissionSource::Internal => SourceStats { internal: (s.internal + 1) as u64, ..s },
        AdmissionSource::Recovery => SourceStats { recovery: (s.recovery + 1) as u64, ..s },
    }
}

impl SourceStats {
    fn increment(&mut self, source: AdmissionSource)
        requires
            old(self).rpc < u64::MAX,
            old(self).p2p < u64::MAX,
            old(self).internal < u64::MAX,
            old(self).recovery < u64::MAX,
        ensures
            *final(self) == bump_source(*old(self), source),
    {
        match source {
            AdmissionSource::Rpc => self.rpc = self.rpc + 1,
            AdmissionSource::P2P => self.p2p = self.p2p + 1,
            AdmissionSource::Internal => self.internal = self.internal + 1,
            AdmissionSource::Recovery => self.recovery = self.recovery + 1,
        }
    }
}

/// Statistics snapshot.
#[derive(Debug, Clone, Copy, PartialEq, Eq, Structural)]
pub struct MempoolStats {
    pub len: usize,
    pub total_bytes: usize,
    pub max_txs: usize,
    pub max_tx_size: usize,
    pub max_total_bytes: usize,
    pub remaining_tx_capacity: usize,
    pub remaining_byte_capacity: usize,
    pub rejection_stats: RejectionStats,
    pub lifecycle_stats: LifecycleStats,
    pub accepted_by_source: SourceStats,
}

// ---------------------------------------------------------------------------
// Model
// ---------------------------------------------------------------------------

/// Abstract state of a mempool.
pub struct MempoolModel {
    pub config: MempoolConfig,
    pub txs: Seq<Transaction>,
    pub total_bytes: nat,
    pub rejection: RejectionStats,
    pub lifecycle: LifecycleStats,
    pub by_source: SourceStats,
}

/// Sum of the payload sizes.
pub open spec fn bytes_of(txs: Seq<Transaction>) -> nat
    decreases txs.len(),
{
    if txs.len() == 0 {
        0
    } else {
        bytes_of(txs.drop_last()) + txs.last()@.payload.len()
    }
}

/// Some retained transaction has identifier `id`.
pub open spec fn holds_id(txs: Seq<Transaction>, id: Seq<u8>) -> bool {
    exists|i: int| 0 <= i < txs.len() && #[trigger] txs[i]@.id == id
}

/// A transaction the admission checks let in under configuration `c`: a
/// non-zero identifier and a payload of 1 to `max_tx_size` bytes.
pub open spec fn admissible(c: MempoolConfig, t: TxView) -> bool {
    &&& !id_is_zero(t.id)
    &&& 0 < t.payload.len() <= c.max_tx_size
}

/// The mempool invariant.
pub open spec fn mempool_wf(m: MempoolModel) -> bool {
    &&& config_problem(m.config) is None
    &&& forall|i: int| 0 <= i < m.txs.len() ==> admissible(m.config, #[trigger] m.txs[i]@)
    &&& m.total_bytes == bytes_of(m.txs)
    &&& m.txs.len() <= m.config.max_txs
    &&& m.total_bytes <= m.config.max_total_bytes
    &&& forall|i: int, j: int|
        0 <= i < j < m.txs.len() ==> #[trigger] m.txs[i]@.id != #[trigger] m.txs[j]@.id
}

/// Every counter can take as many increments as one operation may make.
pub open spec fn counters_have_room(m: MempoolModel) -> bool {
    let k = m.txs.len() + 1;
    &&& m.rejection.zero_id + k <= u64::MAX
    &&& m.rejection.empty + k <= u64::MAX
    &&& m.rejection.oversized + k <= u64::MAX
    &&& m.rejection.duplicate + k <= u64::MAX
    &&& m.rejection.full + k <= u64::MAX
    &&& m.rejection.bytes_exceeded + k <= u64::MAX
    &&& m.lifecycle.accepted + k <= u64::MAX
    &&& m.lifecycle.expired_evictions + k <= u64::MAX
    &&& m.lifecycle.explicit_removals + k <= u64::MAX
    &&& m.lifecycle.collected + k <= u64::MAX
    &&& m.lifecycle.clears + k <= u64::MAX
    &&& m.by_source.rpc + k <= u64::MAX
    &&& m.by_source.p2p + k <= u64::MAX
    &&& m.by_source.internal + k <= u64::MAX
    &&& m.by_source.recovery + k <= u64::MAX
}

/// The state after the `k` oldest entries expired.
pub open spec fn evicted(m: MempoolModel, k: int) -> MempoolModel {
    MempoolModel {
        txs: m.txs.skip(k),
        total_bytes: bytes_of(m.txs.skip(k)),
        lifecycle: LifecycleStats {
            expired_evictions: (m.lifecycle.expired_evictions + k) as u64,
            ..m.lifecycle
        },
        ..m
    }
}

/// Why a transaction would be refused by a mempool in state `m`, if at all.
pub open spec fn admission_error(m: MempoolModel, tx: TxView) -> Option<MempoolError> {
    if id_is_zero(tx.id) {
        Some(MempoolError::ZeroTransactionId)
    } else if tx.payload.len() == 0 {
        Some(MempoolError::EmptyTransaction)
    } else if tx.payload.len() > m.config.max_tx_size {
        Some(
            MempoolError::TransactionTooLarge {
                size: tx.payload.len() as usize,
                max_allowed: m.config.max_tx_size,
            },
        )
    } else if holds_id(m.txs, tx.id) {
        Some(MempoolError::DuplicateTransaction)
    } else if m.txs.len() >= m.config.max_txs {
        Some(MempoolError::MempoolFull { max_txs: m.config.max_txs })
    } else if m.total_bytes + tx.payload.len() > m.config.max_total_bytes {
        Some(
            MempoolError::TotalBytesExceeded {
                current_bytes: m.total_bytes as usize,
                tx_size: tx.payload.len() as usize,
                max_allowed: m.config.max_total_bytes,
            },
        )
    } else {
        None
    }
}

pub open spec fn count_rejection(r: RejectionStats, e: MempoolError) -> RejectionStats {
    match e {
        MempoolError::ZeroTransactionId => RejectionStats { zero_id: (r.zero_id + 1) as u64, ..r },
        MempoolError::EmptyTransaction => RejectionStats { empty: (r.empty + 1) as u64, ..r },
        MempoolError::TransactionTooLarge { .. } => RejectionStats {
            oversized: (r.oversized + 1) as u64,
            ..r
        },
        MempoolError::DuplicateTransaction => RejectionStats {
            duplicate: (r.duplicate + 1) as u64,
            ..r
        },
        MempoolError::MempoolFull { .. } => RejectionStats { full: (r.full + 1) as u64, ..r },
        MempoolError::TotalBytesExceeded { .. } => RejectionStats {
            bytes_exceeded: (r.bytes_exceeded + 1) as u64,
            ..r
        },
        MempoolError::InvalidConfig(_) => r,
    }
}

/// The state after admitting `tx`: it joins the back of the queue.
pub open spec fn admitted(m: MempoolModel, tx: Transaction) -> MempoolModel {
    MempoolModel {
        txs: m.txs.push(tx),
        total_bytes: m.total_bytes + tx@.payload.len(),
        lifecycle: LifecycleStats { accepted: (m.lifecycle.accepted + 1) as u64, ..m.lifecycle },
        by_source: bump_source(m.by_source, tx@.meta.source),
        ..m
    }
}

/// The state after a refused admission: only the rejection counter moves.
pub open spec fn refused(m: MempoolModel, e: MempoolError) -> MempoolModel {
    MempoolModel { rejection: count_rejection(m.rejection, e), ..m }
}

/// The state after handing out the `n` oldest entries.
pub open spec fn collected_from(m: MempoolModel, n: int) -> MempoolModel {
    MempoolModel {
        txs: m.txs.skip(n),
        total_bytes: bytes_of(m.txs.skip(n)),
        lifecycle: LifecycleStats { collected: (m.lifecycle.collected + n) as u64, ..m.lifecycle },
        ..m
    }
}

/// The state after removing the entry at position `i`.
pub open spec fn removed_at(m: MempoolModel, i: int) -> MempoolModel {
    MempoolModel {
        txs: m.txs.remove(i),
        total_bytes: bytes_of(m.txs.remove(i)),
        lifecycle: LifecycleStats {
            explicit_removals: (m.lifecycle.explicit_removals + 1) as u64,
            ..m.lifecycle
        },
        ..m
    }
}

pub open spec fn collected_view(c: CollectedTransaction) -> TxView {
    TxView { id: c.id@, payload: c.payload@, meta: c.meta }
}

pub open spec fn collected_views(s: Seq<CollectedTransaction>) -> Seq<TxView> {
    s.map_values(|c: CollectedTransaction| collected_view(c))
}

// ---------------------------------------------------------------------------
// Byte accounting lemmas
// ---------------------------------------------------------------------------

proof fn lemma_bytes_append(a: Seq<Transaction>, b: Seq<Transaction>)
    ensures
        bytes_of(a + b) == bytes_of(a) + bytes_of(b),
    decreases b.len(),
{
    if b.len() == 0 {
        assert(a + b =~= a);
    } else {
        assert((a + b).drop_last() =~= a + b.drop_last());
        lemma_bytes_append(a, b.drop_last());
    }
}

proof fn lemma_bytes_front(s: Seq<Transaction>)
    requires
        s.len() > 0,
    ensures
        bytes_of(s) == s[0]@.payload.len() + bytes_of(s.skip(1)),
{
    assert(s =~= seq![s[0]] + s.skip(1));
    lemma_bytes_append(seq![s[0]], s.skip(1));
    let one = seq![s[0]];
    assert(one.drop_last() =~= Seq::<Transaction>::empty());
    assert(bytes_of(one.drop_last()) == 0);
    assert(one.last() == s[0]);
    assert(bytes_of(one) == s[0]@.payload.len());
}

proof fn lemma_bytes_remove(s: Seq<Transaction>, i: int)
    requires
        0 <= i < s.len(),
    ensures
        bytes_of(s) == s[i]@.payload.len() + bytes_of(s.remove(i)),
{
    assert(s =~= s.take(i) + s.skip(i));
    lemma_bytes_append(s.take(i), s.skip(i));
    lemma_bytes_front(s.skip(i));
    assert(s.remove(i) =~= s.take(i) + s.skip(i).skip(1));
    lemma_bytes_append(s.take(i), s.skip(i).skip(1));
}

proof fn lemma_unique_skip(s: Seq<Transaction>, k: int)
    requires
        0 <= k <= s.len(),
        forall|i: int, j: int| 0 <= i < j < s.len() ==> #[trigger] s[i]@.id != #[trigger] s[j]@.id,
    ensures
        forall|i: int, j: int|
            0 <= i < j < s.skip(k).len() ==> #[trigger] s.skip(k)[i]@.id != #[trigger] s.skip(
                k,
            )[j]@.id,
{
    assert forall|i: int, j: int|
        0 <= i < j < s.skip(k).len() implies #[trigger] s.skip(k)[i]@.id != #[trigger] s.skip(
        k,
    )[j]@.id by {
        assert(s.skip(k)[i] == s[i + k]);
        assert(s.skip(k)[j] == s[j + k]);
    }
}

proof fn lemma_bytes_skip_le(s: Seq<Transaction>, k: int)
    requires
        0 <= k <= s.len(),
    ensures
        bytes_of(s.skip(k)) <= bytes_of(s),
{
    assert(s =~= s.take(k) + s.skip(k));
    lemma_bytes_append(s.take(k), s.skip(k));
}

proof fn lemma_wf_skip(m: MempoolModel, k: int)
    requires
        mempool_wf(m),
        0 <= k <= m.txs.len(),
    ensures
        mempool_wf(MempoolModel { txs: m.txs.skip(k), total_bytes: bytes_of(m.txs.skip(k)), ..m }),
{
    lemma_unique_skip(m.txs, k);
    lemma_bytes_skip_le(m.txs, k);
}

// ---------------------------------------------------------------------------
// Expiry
// ---------------------------------------------------------------------------

/// `k` counts the leading entries whose age reached `ttl`: every one of the
/// first `k` ages is at least `ttl`, and the age after them, if any, is less.
pub open spec fn is_expired_prefix(ages: Seq<u128>, ttl: int, k: int) -> bool {
    &&& 0 <= k <= ages.len()
    &&& forall|i: int| 0 <= i < k ==> ages[i] >= ttl
    &&& k < ages.len() ==> ages[k] < ttl
}

/// The number of leading entries that have expired, given the age of each
/// entry (oldest first) and the time-to-live, both in nanoseconds.
pub fn expired_prefix_len(elapsed_nanos: &[u128], ttl_nanos: u128) -> (k: usize)
    ensures
        k <= elapsed_nanos@.len(),
        forall|i: int| 0 <= i < k ==> elapsed_nanos@[i] >= ttl_nanos,
        k < elapsed_nanos@.len() ==> elapsed_nanos@[k as int] < ttl_nanos,
{
    let mut k: usize = 0;
    while k < elapsed_nanos.len()
        invariant
            k <= elapsed_nanos@.len(),
            forall|i: int| 0 <= i < k ==> elapsed_nanos@[i] >= ttl_nanos,
        decreases elapsed_nanos@.len() - k,
    {
        if elapsed_nanos[k] < ttl_nanos {
            return k;
        }
        k = k + 1;
    }
    k
}

// ---------------------------------------------------------------------------
// Mempool
// ---------------------------------------------------------------------------

/// FIFO mempool with bounded resource consumption.
#[derive(Debug)]
pub struct Mempool {
    config: MempoolConfig,
    queue: VecDeque<Transaction>,
    total_bytes: usize,
    rejection_stats: RejectionStats,
    lifecycle_stats: LifecycleStats,
    accepted_by_source: SourceStats,
}

impl View for Mempool {
    type V = MempoolModel;

    closed spec fn view(&self) -> MempoolModel {
        MempoolModel {
            config: self.config,
            txs: self.queue@,
            total_bytes: self.total_bytes as nat,
            rejection: self.rejection_stats,
            lifecycle: self.lifecycle_stats,
            by_source: self.accepted_by_source,
        }
    }
}

impl Mempool {
    /// A new, empty mempool; fails when the configuration is invalid.
    pub fn new(config: MempoolConfig) -> (r: Result<Self, MempoolError>)
        ensures
            r is Ok <==> config_problem(config) is None,
            r is Ok ==> r->Ok_0@ == (MempoolModel {
                config,
                txs: Seq::empty(),
                total_bytes: 0,
                rejection: RejectionStats { zero_id: 0, empty: 0, oversized: 0, duplicate: 0, full: 0, bytes_exceeded: 0 },
                lifecycle: LifecycleStats { accepted: 0, expired_evictions: 0, explicit_removals: 0, collected: 0, clears: 0 },
                by_source: SourceStats { rpc: 0, p2p: 0, internal: 0, recovery: 0 },
            }),
            r is Ok ==> mempool_wf(r->Ok_0@),
            r is Err ==> (r->Err_0 matches MempoolError::InvalidConfig(m) && config_problem(config)
                == Some(m@)),
    {
        let config = config.validate()?;
        let r = Mempool {
            config,
            queue: VecDeque::new(),
            total_bytes: 0,
            rejection_stats: RejectionStats::default(),
            lifecycle_stats: LifecycleStats::default(),
            accepted_by_source: SourceStats::default(),
        };
        assert(r@.txs =~= Seq::<Transaction>::empty());
        Ok(r)
    }

    /// The active configuration.
    pub fn config(&self) -> (r: MempoolConfig)
        ensures
            r == self@.config,
    {
        self.config
    }

    /// Number of live transactions.
    pub fn len(&self) -> (r: usize)
        ensures
            r == self@.txs.len(),
    {
        self.queue.len()
    }

    /// Whether no transaction is live.
    pub fn is_empty(&self) -> (r: bool)
        ensures
            r == (self@.txs.len() == 0),
    {
        self.queue.len() == 0
    }

    /// Total retained payload bytes.
    pub fn total_bytes(&self) -> (r: usize)
        ensures
            r == self@.total_bytes,
    {
        self.total_bytes
    }

    /// Whether a transaction with identifier `id` is live.
    pub fn contains(&self, id: &[u8; TX_ID_LEN]) -> (r: bool)
        ensures
            r == holds_id(self@.txs, id@),
    {
        match self.position_of(id) {
            Some(_) => true,
            None => false,
        }
    }

    fn position_of(&self, id: &[u8; TX_ID_LEN]) -> (r: Option<usize>)
        ensures
            match r {
                Some(i) => i < self@.txs.len() && self@.txs[i as int]@.id == id@,
                None => !holds_id(self@.txs, id@),
            },
    {
        let n = self.queue.len();
        let mut i: usize = 0;
        while i < n
            invariant
                n == self@.txs.len(),
                i <= n,
                forall|j: int| 0 <= j < i ==> #[trigger] self@.txs[j]@.id != id@,
            decreases n - i,
        {
            if bytes_eq(self.queue[i].id.as_slice(), id.as_slice()) {
                return Some(i);
            }
            i += 1;
        }
        None
    }

    /// Free transaction slots.
    pub fn remaining_tx_capacity(&self) -> (r: usize)
        ensures
            r == if self@.txs.len() >= self@.config.max_txs {
                0
            } else {
                self@.config.max_txs - self@.txs.len()
            },
    {
        self.config.max_txs.saturating_sub(self.queue.len())
    }

    /// Free byte capacity.
    pub fn remaining_byte_capacity(&self) -> (r: usize)
        ensures
            r == if self@.total_bytes >= self@.config.max_total_bytes {
                0
            } else {
                self@.config.max_total_bytes - self@.total_bytes
            },
    {
        self.config.max_total_bytes.saturating_sub(self.total_bytes)
    }

    /// Cumulative rejection counters.
    pub fn rejection_stats(&self) -> (r: RejectionStats)
        ensures
            r == self@.rejection,
    {
        self.rejection_stats
    }

    /// Cumulative lifecycle counters.
    pub fn lifecycle_stats(&self) -> (r: LifecycleStats)
        ensures
            r == self@.lifecycle,
    {
        self.lifecycle_stats
    }

    /// Accepted admissions per source.
    pub fn accepted_by_source(&self) -> (r: SourceStats)
        ensures
            r == self@.by_source,
    {
        self.accepted_by_source
    }

    /// Statistics snapshot.
    pub fn stats(&self) -> (r: MempoolStats)
        ensures
            r.len == self@.txs.len(),
            r.total_bytes == self@.total_bytes,
            r.max_txs == self@.config.max_txs,
            r.max_tx_size == self@.config.max_tx_size,
            r.max_total_bytes == self@.config.max_total_bytes,
            r.remaining_tx_capacity == if self@.txs.len() >= self@.config.max_txs {
                0
            } else {
                self@.config.max_txs - self@.txs.len()
            },
            r.remaining_byte_capacity == if self@.total_bytes >= self@.config.max_total_bytes {
                0
            } else {
                self@.config.max_total_bytes - self@.total_bytes
            },
            r.rejection_stats == self@.rejection,
            r.lifecycle_stats == self@.lifecycle,
            r.accepted_by_source == self@.by_source,
    {
        MempoolStats {
            len: self.queue.len(),
            total_bytes: self.total_bytes,
            max_txs: self.config.max_txs,
            max_tx_size: self.config.max_tx_size,
            max_total_bytes: self.config.max_total_bytes,
            remaining_tx_capacity: self.remaining_tx_capacity(),
            remaining_byte_capacity: self.remaining_byte_capacity(),
            rejection_stats: self.rejection_stats,
            lifecycle_stats: self.lifecycle_stats,
            accepted_by_source: self.accepted_by_source,
        }
    }

    /// Inserts a transaction with default admission metadata.
    pub fn add_tx(&mut self, id: [u8; TX_ID_LEN], payload: Vec<u8>) -> (r: Result<(), MempoolError>)
        requires
            mempool_wf(old(self)@),
            counters_have_room(old(self)@),
        ensures
            mempool_wf(final(self)@),
            exists|ages: Seq<u128>, k: int, tx: Transaction|
                #![trigger expiry_step(old(self)@, ages, k), admission_outcome(evicted(old(self)@, k), tx)]
                expiry_step(old(self)@, ages, k) && tx@.id == id@ && tx@.payload == payload@
                    && tx@.meta.source == AdmissionSource::Rpc && admission_outcome(
                    evicted(old(self)@, k),
                    tx,
                ) == (final(self)@, r),
    {
        self.add_transaction(Transaction::new(id, payload))
    }

    /// Inserts a transaction with explicit admission metadata.
    pub fn add_tx_with_meta(&mut self, id: [u8; TX_ID_LEN], payload: Vec<u8>, meta: AdmissionMeta) -> (r:
        Result<(), MempoolError>)
        requires
            mempool_wf(old(self)@),
            counters_have_room(old(self)@),
        ensures
            mempool_wf(final(self)@),
            exists|ages: Seq<u128>, k: int, tx: Transaction|
                #![trigger expiry_step(old(self)@, ages, k), admission_outcome(evicted(old(self)@, k), tx)]
                expiry_step(old(self)@, ages, k) && tx@ == (TxView { id: id@, payload: payload@, meta })
                    && admission_outcome(evicted(old(self)@, k), tx) == (final(self)@, r),
    {
        self.add_transaction(Transaction { id, payload, meta })
    }

    /// Inserts a transaction. Expired entries are purged first; then the
    /// transaction is admitted unless its identifier is all zero, its payload
    /// is empty or over the per-transaction bound, its identifier is already
    /// live, the queue is full, or the byte total would pass its bound.
    pub fn add_transaction(&mut self, tx: Transaction) -> (r: Result<(), MempoolError>)
        requires
            mempool_wf(old(self)@),
            counters_have_room(old(self)@),
        ensures
            mempool_wf(final(self)@),
            exists|ages: Seq<u128>, k: int|
                #[trigger] expiry_step(old(self)@, ages, k) && admission_outcome(
                    evicted(old(self)@, k),
                    tx,
                ) == (final(self)@, r),
    {
        let (k, ages) = self.evict_expired();
        let r = self.admit_transaction(tx);
        assert(expiry_step(old(self)@, ages@, k as int) && admission_outcome(
            evicted(old(self)@, k as int),
            tx,
        ) == (self@, r));
        r
    }

    /// The admission decision on the current state, without expiry: the
    /// rejection counter of the reason moves on refusal; on acceptance the
    /// transaction joins the back of the queue and the accounting follows.
    pub fn admit_transaction(&mut self, tx: Transaction) -> (r: Result<(), MempoolError>)
        requires
            mempool_wf(old(self)@),
            counters_have_room(old(self)@),
        ensures
            (final(self)@, r) == admission_outcome(old(self)@, tx),
            mempool_wf(final(self)@),
    {
        proof {
            lemma_tx_id_len(tx);
        }
        if tx.has_zero_id() {
            self.rejection_stats.zero_id = self.rejection_stats.zero_id + 1;
            return Err(MempoolError::ZeroTransactionId);
        }
        if tx.payload.len() == 0 {
            self.rejection_stats.empty = self.rejection_stats.empty + 1;
            return Err(MempoolError::EmptyTransaction);
        }
        let tx_size = tx.size();
        if tx_size > self.config.max_tx_size {
            self.rejection_stats.oversized = self.rejection_stats.oversized + 1;
            return Err(
                MempoolError::TransactionTooLarge { size: tx_size, max_allowed: self.config.max_tx_size },
            );
        }
        if self.position_of(&tx.id).is_some() {
            self.rejection_stats.duplicate = self.rejection_stats.duplicate + 1;
            return Err(MempoolError::DuplicateTransaction);
        }
        if self.queue.len() >= self.config.max_txs {
            self.rejection_stats.full = self.rejection_stats.full + 1;
            return Err(MempoolError::MempoolFull { max_txs: self.config.max_txs });
        }
        if tx_size > self.config.max_total_bytes - self.total_bytes {
            self.rejection_stats.bytes_exceeded = self.rejection_stats.bytes_exceeded + 1;
            return Err(
                MempoolError::TotalBytesExceeded {
                    current_bytes: self.total_bytes,
                    tx_size,
                    max_allowed: self.config.max_total_bytes,
                },
            );
        }
        let ghost before = self@;
        self.total_bytes = self.total_bytes + tx_size;
        self.accepted_by_source.increment(tx.meta.source);
        self.lifecycle_stats.accepted = self.lifecycle_stats.accepted + 1;
        self.queue.push_back(tx);
        proof {
            let after = self@;
            assert(after.txs == before.txs.push(tx));
            assert(after.txs.drop_last() =~= before.txs);
            assert forall|i: int, j: int|
                0 <= i < j < after.txs.len() implies #[trigger] after.txs[i]@.id
                != #[trigger] after.txs[j]@.id by {
                if j < before.txs.len() {
                    assert(after.txs[i] == before.txs[i]);
                    assert(after.txs[j] == before.txs[j]);
                } else {
                    assert(after.txs[i] == before.txs[i]);
                    assert(after.txs[j] == tx);
                }
            }
        }
        Ok(())
    }

    /// Collects up to `limit` transactions in FIFO order after purging
    /// expired ones; a zero limit returns nothing.
    pub fn collect(&mut self, limit: usize) -> (r: Vec<CollectedTransaction>)
        requires
            mempool_wf(old(self)@),
            counters_have_room(old(self)@),
        ensures
            mempool_wf(final(self)@),
            exists|ages: Seq<u128>, k: int|
                #[trigger] expiry_step(old(self)@, ages, k) && collection_outcome(
                    evicted(old(self)@, k),
                    limit as int,
                    collected_views(r@),
                    final(self)@,
                ),
    {
        let (k, ages) = self.evict_expired();
        let ghost mid = self@;
        let n = if limit < self.queue.len() {
            limit
        } else {
            self.queue.len()
        };
        let mut collected: Vec<CollectedTransaction> = Vec::new();
        let mut i: usize = 0;
        proof {
            assert(mid.txs.skip(0) =~= mid.txs);
            assert(collected_views(collected@)
                =~= mid.txs.take(0).map_values(|t: Transaction| t@));
        }
        while i < n
            invariant
                mempool_wf(mid),
                n <= mid.txs.len(),
                i <= n,
                counters_have_room(mid),
                self@ == collected_from(mid, i as int),
                collected_views(collected@)
                    == mid.txs.take(i as int).map_values(|t: Transaction| t@),
            decreases n - i,
        {
            let ghost before = self@;
            proof {
                lemma_bytes_front(before.txs);
                assert(before.txs[0] == mid.txs[i as int]);
            }
            let tx = self.queue.pop_front().unwrap();
            self.total_bytes = self.total_bytes - tx.payload.len();
            self.lifecycle_stats.collected = self.lifecycle_stats.collected + 1;
            let ghost tv = tx@;
            let c = CollectedTransaction { id: tx.id, payload: tx.payload, meta: tx.meta };
            let ghost old_collected = collected@;
            collected.push(c);
            proof {
                assert(collected_view(c) == tv);
                assert(before.txs.skip(1) =~= mid.txs.skip(i + 1 as int));
                assert(mid.txs.take(i + 1 as int).map_values(|t: Transaction| t@)
                    =~= mid.txs.take(i as int).map_values(|t: Transaction| t@).push(tv));
                assert(collected_views(collected@)
                    =~= collected_views(old_collected).push(
                    tv,
                ));
            }
            i += 1;
        }
        proof {
            lemma_wf_skip(mid, n as int);
            assert(collection_outcome(mid, limit as int, collected_views(collected@), self@));
            assert(expiry_step(old(self)@, ages@, k as int));
        }
        collected
    }

    /// Removes the live transaction with identifier `id`, after purging
    /// expired ones; reports whether one was found.
    pub fn remove_tx(&mut self, id: &[u8; TX_ID_LEN]) -> (r: bool)
        requires
            mempool_wf(old(self)@),
            counters_have_room(old(self)@),
        ensures
            mempool_wf(final(self)@),
            exists|ages: Seq<u128>, k: int|
                #[trigger] expiry_step(old(self)@, ages, k) && removal_outcome(
                    evicted(old(self)@, k),
                    id@,
                ) == (final(self)@, r),
    {
        let (k, ages) = self.evict_expired();
        let ghost mid = self@;
        match self.position_of(id) {
            None => {
                assert(expiry_step(old(self)@, ages@, k as int));
                assert(removal_outcome(evicted(old(self)@, k as int), id@) == (self@, false));
                false
            },
            Some(position) => {
                proof {
                    lemma_bytes_remove(mid.txs, position as int);
                    assert(mid.txs[position as int]@.id == id@);
                }
                let tx = self.queue.remove(position).unwrap();
                self.total_bytes = self.total_bytes - tx.payload.len();
                self.lifecycle_stats.explicit_removals = self.lifecycle_stats.explicit_removals + 1;
                proof {
                    let p = position as int;
                    assert(self@.txs =~= mid.txs.remove(p));
                    assert forall|i: int, j: int|
                        0 <= i < j < self@.txs.len() implies #[trigger] self@.txs[i]@.id
                        != #[trigger] self@.txs[j]@.id by {
                        let ii = if i < p { i } else { i + 1 };
                        let jj = if j < p { j } else { j + 1 };
                        assert(self@.txs[i] == mid.txs[ii]);
                        assert(self@.txs[j] == mid.txs[jj]);
                    }
                    assert(unique_position(mid.txs, id@, p));
                    assert(expiry_step(old(self)@, ages@, k as int));
                    assert(removal_outcome(evicted(old(self)@, k as int), id@) == (self@, true));
                }
                true
            },
        }
    }

    /// Purges expired transactions; returns how many were removed.
    pub fn purge_expired(&mut self) -> (r: usize)
        requires
            mempool_wf(old(self)@),
            counters_have_room(old(self)@),
        ensures
            exists|ages: Seq<u128>| #[trigger] expiry_step(old(self)@, ages, r as int),
            final(self)@ == evicted(old(self)@, r as int),
            mempool_wf(final(self)@),
    {
        let (removed, ages) = self.evict_expired();
        assert(expiry_step(old(self)@, ages@, removed as int));
        removed
    }

    /// Drops every live entry and resets live accounting; cumulative
    /// counters are kept.
    pub fn clear(&mut self)
        requires
            mempool_wf(old(self)@),
            counters_have_room(old(self)@),
        ensures
            final(self)@ == (MempoolModel {
                txs: Seq::empty(),
                total_bytes: 0,
                lifecycle: LifecycleStats {
                    clears: (old(self)@.lifecycle.clears + 1) as u64,
                    ..old(self)@.lifecycle
                },
                ..old(self)@
            }),
            mempool_wf(final(self)@),
    {
        self.queue.clear();
        self.total_bytes = 0;
        self.lifecycle_stats.clears = self.lifecycle_stats.clears + 1;
        assert(self@.txs =~= Seq::<Transaction>::empty());
    }

    /// Live identifiers in FIFO order.
    pub fn ids_in_order(&self) -> (r: Vec<[u8; TX_ID_LEN]>)
        ensures
            r@.len() == self@.txs.len(),
            forall|i: int| 0 <= i < r@.len() ==> (#[trigger] r@[i])@ == self@.txs[i]@.id,
    {
        let n = self.queue.len();
        let mut out: Vec<[u8; TX_ID_LEN]> = Vec::new();
        let mut i: usize = 0;
        while i < n
            invariant
                n == self@.txs.len(),
                i <= n,
                out@.len() == i,
                forall|j: int| 0 <= j < i ==> (#[trigger] out@[j])@ == self@.txs[j]@.id,
            decreases n - i,
        {
            out.push(self.queue[i].id);
            i += 1;
        }
        out
    }

    /// Identifier of the oldest live transaction.
    pub fn peek_oldest_id(&self) -> (r: Option<[u8; TX_ID_LEN]>)
        ensures
            r is None <==> self@.txs.len() == 0,
            r is Some ==> r->0@ == self@.txs[0]@.id,
    {
        if self.queue.len() == 0 {
            None
        } else {
            Some(self.queue[0].id)
        }
    }

    /// Priority of the oldest live transaction.
    pub fn peek_oldest_priority(&self) -> (r: Option<AdmissionPriority>)
        ensures
            r is None <==> self@.txs.len() == 0,
            r is Some ==> r->0 == self@.txs[0]@.meta.priority,
    {
        if self.queue.len() == 0 {
            None
        } else {
            Some(self.queue[0].meta.priority)
        }
    }

    /// Evicts expired entries given the age of each live entry (oldest first,
    /// in nanoseconds): exactly the leading entries whose age reached the
    /// time-to-live leave the queue. Returns how many left.
    pub fn purge_expired_with(&mut self, elapsed_nanos: &[u128]) -> (removed: usize)
        requires
            mempool_wf(old(self)@),
            counters_have_room(old(self)@),
            elapsed_nanos@.len() == old(self)@.txs.len(),
        ensures
            is_expired_prefix(
                elapsed_nanos@,
                duration_nanos(old(self)@.config.tx_ttl) as int,
                removed as int,
            ),
            final(self)@ == evicted(old(self)@, removed as int),
            mempool_wf(final(self)@),
            counters_have_room(final(self)@),
    {
        let ttl = duration_as_nanos(self.config.tx_ttl);
        let n = expired_prefix_len(elapsed_nanos, ttl);
        let ghost start = self@;
        let mut removed: usize = 0;
        proof {
            assert(start.txs.skip(0) =~= start.txs);
        }
        while removed < n
            invariant
                mempool_wf(start),
                counters_have_room(start),
                n <= start.txs.len(),
                removed <= n,
                self@ == evicted(start, removed as int),
            decreases n - removed,
        {
            let ghost before = self@;
            proof {
                lemma_bytes_front(before.txs);
            }
            let tx = self.queue.pop_front().unwrap();
            self.total_bytes = self.total_bytes - tx.payload.len();
            removed = removed + 1;
            self.lifecycle_stats.expired_evictions = self.lifecycle_stats.expired_evictions + 1;
            proof {
                assert(before.txs.skip(1) =~= start.txs.skip(removed as int));
            }
        }
        proof {
            lemma_wf_skip(start, removed as int);
        }
        removed
    }

    /// The age of each live entry, oldest first, against one reading of the
    /// clock.
    fn entry_ages(&self) -> (ages: Vec<u128>)
        ensures
            ages@.len() == self@.txs.len(),
    {
        let now = instant_now();
        let mut ages: Vec<u128> = Vec::new();
        let mut i: usize = 0;
        while i < self.queue.len()
            invariant
                i <= self@.txs.len(),
                ages@.len() == i,
            decreases self@.txs.len() - i,
        {
            ages.push(instant_elapsed_nanos(now, self.queue[i].meta.inserted_at));
            i += 1;
        }
        ages
    }

    /// Reads the clock once and evicts the entries that have expired by then;
    /// returns how many left, with the ages that decided it.
    fn evict_expired(&mut self) -> (r: (usize, Ghost<Seq<u128>>))
        requires
            mempool_wf(old(self)@),
            counters_have_room(old(self)@),
        ensures
            expiry_step(old(self)@, r.1@, r.0 as int),
            final(self)@ == evicted(old(self)@, r.0 as int),
            mempool_wf(final(self)@),
            counters_have_room(final(self)@),
    {
        let ages = self.entry_ages();
        let removed = self.purge_expired_with(ages.as_slice());
        (removed, Ghost(ages@))
    }
}

/// `k` leading entries of `m` expire when the live entries have ages `ages`
/// (one per entry, oldest first).
pub open spec fn expiry_step(m: MempoolModel, ages: Seq<u128>, k: int) -> bool {
    &&& ages.len() == m.txs.len()
    &&& is_expired_prefix(ages, duration_nanos(m.config.tx_ttl) as int, k)
}

/// What an admission attempt on state `m` yields: the new state and the result.
pub open spec fn admission_outcome(m: MempoolModel, tx: Transaction) -> (MempoolModel, Result<(), MempoolError>) {
    match admission_error(m, tx@) {
        Some(e) => (refused(m, e), Err(e)),
        None => (admitted(m, tx), Ok(())),
    }
}

/// A collection of up to `limit` entries from state `m` hands out `out`, the
/// oldest `min(limit, len)` entries in order, and leaves state `after`.
pub open spec fn collection_outcome(m: MempoolModel, limit: int, out: Seq<TxView>, after: MempoolModel) -> bool {
    let n = if limit < m.txs.len() {
        limit
    } else {
        m.txs.len() as int
    };
    &&& out == m.txs.take(n).map_values(|t: Transaction| t@)
    &&& after == collected_from(m, n)
}

/// `id` sits at position `p` of `txs` and nowhere else.
pub open spec fn unique_position(txs: Seq<Transaction>, id: Seq<u8>, p: int) -> bool {
    0 <= p < txs.len() && txs[p]@.id == id && forall|j: int|
        0 <= j < txs.len() && j != p ==> #[trigger] txs[j]@.id != id
}

/// What removing `id` from state `m` yields: the new state and whether an
/// entry was removed.
pub open spec fn removal_outcome(m: MempoolModel, id: Seq<u8>) -> (MempoolModel, bool) {
    if holds_id(m.txs, id) {
        let p = choose|p: int| unique_position(m.txs, id, p);
        (removed_at(m, p), true)
    } else {
        (m, false)
    }
}

/// A transaction that is admitted is held by the mempool afterwards.
pub proof fn law_admitted_is_held(m: MempoolModel, tx: Transaction)
    requires
        admission_outcome(m, tx).1 is Ok,
    ensures
        holds_id(admission_outcome(m, tx).0.txs, tx@.id),
{
    let txs = admission_outcome(m, tx).0.txs;
    assert(txs[m.txs.len() as int]@.id == tx@.id);
}

/// Once a transaction is admitted, another with the same identifier (and an
/// otherwise acceptable payload) is refused as a duplicate.
pub proof fn law_second_admission_is_duplicate(m: MempoolModel, tx: Transaction, again: Transaction)
    requires
        admission_outcome(m, tx).1 is Ok,
        again@.id == tx@.id,
        again@.payload.len() > 0,
        again@.payload.len() <= m.config.max_tx_size,
    ensures
        admission_outcome(admission_outcome(m, tx).0, again).1 == Err::<(), MempoolError>(
            MempoolError::DuplicateTransaction,
        ),
{
    law_admitted_is_held(m, tx);
}

/// Removing an identifier from a well-formed mempool reports whether it was
/// held, and afterwards it is not held.
pub proof fn law_removed_is_gone(m: MempoolModel, id: Seq<u8>)
    requires
        mempool_wf(m),
    ensures
        removal_outcome(m, id).1 == holds_id(m.txs, id),
        !holds_id(removal_outcome(m, id).0.txs, id),
{
    if holds_id(m.txs, id) {
        let i = choose|i: int| 0 <= i < m.txs.len() && #[trigger] m.txs[i]@.id == id;
        assert(unique_position(m.txs, id, i)) by {
            assert forall|j: int| 0 <= j < m.txs.len() && j != i implies #[trigger] m.txs[j]@.id != id by {
                if j < i {
                    assert(m.txs[j]@.id != m.txs[i]@.id);
                } else {
                    assert(m.txs[i]@.id != m.txs[j]@.id);
                }
            }
        }
        let p = choose|p: int| unique_position(m.txs, id, p);
        let rest = m.txs.remove(p);
        assert(removal_outcome(m, id).0.txs == rest);
        if holds_id(rest, id) {
            let k = choose|k: int| 0 <= k < rest.len() && #[trigger] rest[k]@.id == id;
            if k < p {
                assert(rest[k] == m.txs[k]);
            } else {
                assert(rest[k] == m.txs[k + 1]);
            }
        }
    }
}

/// The ages decide the expiry: for given ages there is one number of
/// leading entries that expire.
pub proof fn law_expiry_is_determined(m: MempoolModel, ages: Seq<u128>, k1: int, k2: int)
    requires
        expiry_step(m, ages, k1),
        expiry_step(m, ages, k2),
    ensures
        k1 == k2,
{
    if k1 < k2 {
        assert(ages[k1] >= duration_nanos(m.config.tx_ttl));
    } else if k2 < k1 {
        assert(ages[k2] >= duration_nanos(m.config.tx_ttl));
    }
}

/// Entries younger than the time-to-live are never evicted: when the oldest
/// live entry is younger, nothing expires, and every expired entry is at
/// least as old as the time-to-live.
pub proof fn law_fresh_head_stays(m: MempoolModel, ages: Seq<u128>, k: int)
    requires
        expiry_step(m, ages, k),
    ensures
        ages.len() > 0 && ages[0] < duration_nanos(m.config.tx_ttl) ==> k == 0,
        forall|i: int| 0 <= i < k ==> #[trigger] ages[i] >= duration_nanos(m.config.tx_ttl),
        k == m.txs.len() || ages[k] < duration_nanos(m.config.tx_ttl),
{
}

} // verus!
