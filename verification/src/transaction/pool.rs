//! Pending-transaction pool: admission with duplicate, sender/nonce and
//! capacity checks, removal, deterministic ordering and block selection.

use vstd::prelude::*;

use crate::text::bytes_eq;
use crate::text::dec_digits;
use crate::text::hex_byte_list;
use crate::text::push_decimal_u64;
use crate::text::push_hex_byte_list;
use crate::text::push_str;
use crate::text::string_from_chars;
use crate::text::bytes_less;
use crate::text::bytes_lt;
use crate::text::lemma_bytes_lt_irreflexive;
use crate::text::lemma_bytes_lt_total;
use crate::text::lemma_bytes_lt_transitive;
use crate::transaction::hash::hash_transaction;
use crate::transaction::hash::signed_hash;
use crate::transaction::transaction_error;
use crate::transaction::Transaction;
use crate::transaction::TransactionError;

verus! {

/// Pool capacity limits.
#[derive(Debug, Clone, Copy, PartialEq, Eq, Structural)]
pub struct TransactionPoolConfig {
    pub max_transactions: usize,
    pub max_transactions_per_sender: usize,
}

impl Default for TransactionPoolConfig {
    fn default() -> (r: Self)
        ensures
            r == (TransactionPoolConfig { max_transactions: 10000, max_transactions_per_sender: 128 }),
    {
        TransactionPoolConfig { max_transactions: 10000, max_transactions_per_sender: 128 }
    }
}

/// Pool errors.
#[derive(Debug, Clone, Copy, PartialEq, Eq)]
#[non_exhaustive]
pub enum TransactionPoolError {
    TransactionRejected(TransactionError),
    DuplicateTransactionId { tx_id: [u8; 32] },
    SenderNonceConflict { sender: [u8; 32], nonce: u64, existing_tx_id: [u8; 32] },
    PoolFull { current: usize, max: usize },
    SenderPoolLimitExceeded { sender: [u8; 32], current: usize, max: usize },
    TransactionNotFound { tx_id: [u8; 32] },
}

impl TransactionPoolError {
    pub open spec fn code_text(self) -> Seq<char> {
        match self {
            TransactionPoolError::TransactionRejected(_) => "TX_POOL_TRANSACTION_REJECTED"@,
            TransactionPoolError::DuplicateTransactionId { .. } => "TX_POOL_DUPLICATE_TRANSACTION_ID"@,
            TransactionPoolError::SenderNonceConflict { .. } => "TX_POOL_SENDER_NONCE_CONFLICT"@,
            TransactionPoolError::PoolFull { .. } => "TX_POOL_FULL"@,
            TransactionPoolError::SenderPoolLimitExceeded { .. } => "TX_POOL_SENDER_LIMIT_EXCEEDED"@,
            TransactionPoolError::TransactionNotFound { .. } => "TX_POOL_TRANSACTION_NOT_FOUND"@,
        }
    }

    /// Stable symbolic error code for logs and telemetry.
    pub fn code(self) -> (r: &'static str)
        ensures
            r@ == self.code_text(),
    {
        match self {
            TransactionPoolError::TransactionRejected(_) => "TX_POOL_TRANSACTION_REJECTED",
            TransactionPoolError::DuplicateTransactionId { .. } => "TX_POOL_DUPLICATE_TRANSACTION_ID",
            TransactionPoolError::SenderNonceConflict { .. } => "TX_POOL_SENDER_NONCE_CONFLICT",
            TransactionPoolError::PoolFull { .. } => "TX_POOL_FULL",
            TransactionPoolError::SenderPoolLimitExceeded { .. } => "TX_POOL_SENDER_LIMIT_EXCEEDED",
            TransactionPoolError::TransactionNotFound { .. } => "TX_POOL_TRANSACTION_NOT_FOUND",
        }
    }
}

impl TransactionPoolError {
    pub open spec fn message_text(self) -> Seq<char> {
        match self {
            TransactionPoolError::TransactionRejected(err) =>
                "transaction pool admission failed: transaction validation rejected the candidate ("@
                + err.message_text() + ")"@,
            TransactionPoolError::DuplicateTransactionId { tx_id } =>
                "transaction pool admission failed: duplicate transaction identifier detected ("@
                + hex_byte_list(tx_id@) + ")"@,
            TransactionPoolError::SenderNonceConflict { sender, nonce, existing_tx_id } =>
                "transaction pool admission failed: sender/nonce lane conflict detected for sender "@
                + hex_byte_list(sender@) + " and nonce "@ + dec_digits(nonce as nat)
                + "; existing transaction id is "@ + hex_byte_list(existing_tx_id@),
            TransactionPoolError::PoolFull { current, max } =>
                "transaction pool admission failed: pool capacity reached (current "@
                + dec_digits(current as nat) + ", max "@ + dec_digits(max as nat) + ")"@,
            TransactionPoolError::SenderPoolLimitExceeded { sender, current, max } =>
                "transaction pool admission failed: sender "@ + hex_byte_list(sender@)
                + " reached per-sender capacity (current "@ + dec_digits(current as nat) + ", max "@
                + dec_digits(max as nat) + ")"@,
            TransactionPoolError::TransactionNotFound { tx_id } =>
                "transaction pool operation failed: transaction identifier not found ("@
                + hex_byte_list(tx_id@) + ")"@,
        }
    }

    /// Human-readable description of the failure; byte arrays are written
    /// as two-digit lowercase hexadecimal lists (`[0a, ff, ...]`).
    pub fn message(self) -> (r: String)
        ensures
            r@ == self.message_text(),
    {
        let mut out: Vec<char> = Vec::new();
        match self {
            TransactionPoolError::TransactionRejected(err) => {
                push_str(&mut out, "transaction pool admission failed: transaction validation rejected the candidate (");
                let m = err.message();
                push_str(&mut out, m.as_str());
                push_str(&mut out, ")");
            },
            TransactionPoolError::DuplicateTransactionId { tx_id } => {
                push_str(&mut out, "transaction pool admission failed: duplicate transaction identifier detected (");
                push_hex_byte_list(&mut out, &tx_id);
                push_str(&mut out, ")");
            },
            TransactionPoolError::SenderNonceConflict { sender, nonce, existing_tx_id } => {
                push_str(&mut out, "transaction pool admission failed: sender/nonce lane conflict detected for sender ");
                push_hex_byte_list(&mut out, &sender);
                push_str(&mut out, " and nonce ");
                push_decimal_u64(&mut out, nonce);
                push_str(&mut out, "; existing transaction id is ");
                push_hex_byte_list(&mut out, &existing_tx_id);
            },
            TransactionPoolError::PoolFull { current, max } => {
                push_str(&mut out, "transaction pool admission failed: pool capacity reached (current ");
                push_decimal_u64(&mut out, current as u64);
                push_str(&mut out, ", max ");
                push_decimal_u64(&mut out, max as u64);
                push_str(&mut out, ")");
            },
            TransactionPoolError::SenderPoolLimitExceeded { sender, current, max } => {
                push_str(&mut out, "transaction pool admission failed: sender ");
                push_hex_byte_list(&mut out, &sender);
                push_str(&mut out, " reached per-sender capacity (current ");
                push_decimal_u64(&mut out, current as u64);
                push_str(&mut out, ", max ");
                push_decimal_u64(&mut out, max as u64);
                push_str(&mut out, ")");
            },
            TransactionPoolError::TransactionNotFound { tx_id } => {
                push_str(&mut out, "transaction pool operation failed: transaction identifier not found (");
                push_hex_byte_list(&mut out, &tx_id);
                push_str(&mut out, ")");
            },
        }
        proof {
            assert(out@ =~= self.message_text());
        }
        string_from_chars(&out)
    }
}

/// The order of pending transactions: by sender bytes, then nonce.
pub open spec fn key_lt(a: Transaction, b: Transaction) -> bool {
    bytes_lt(a.sender@, b.sender@) || (a.sender@ == b.sender@ && a.nonce < b.nonce)
}

/// The byte sequences of a list of identifiers.
pub open spec fn id_views(v: Seq<[u8; 32]>) -> Seq<Seq<u8>> {
    v.map_values(|a: [u8; 32]| a@)
}

/// Number of transactions from `sender`.
pub open spec fn sender_count(txs: Seq<Transaction>, sender: Seq<u8>) -> nat
    decreases txs.len(),
{
    if txs.len() == 0 {
        0
    } else {
        sender_count(txs.drop_last(), sender) + if txs.last().sender@ == sender {
            1nat
        } else {
            0nat
        }
    }
}

/// Saturating `usize` addition.
pub open spec fn sat_add(a: int, b: int) -> int {
    if a + b > usize::MAX {
        usize::MAX as int
    } else {
        a + b
    }
}

/// Block selection over the payload lengths of the first `k` transactions,
/// in order: a transaction is taken while fewer than `max_count` are taken
/// and the (saturating) running payload total stays within `max_total`.
/// Returns the taken positions and the running total.
pub open spec fn selection(lens: Seq<nat>, k: int, max_count: nat, max_total: nat) -> (Seq<int>, int)
    decreases k,
{
    if k <= 0 {
        (seq![], 0)
    } else {
        let prev = selection(lens, k - 1, max_count, max_total);
        if prev.0.len() >= max_count {
            prev
        } else {
            let next = sat_add(prev.1, lens[k - 1] as int);
            if next > max_total {
                prev
            } else {
                (prev.0.push(k - 1), next)
            }
        }
    }
}

proof fn lemma_selection_stable(lens: Seq<nat>, k: int, j: int, max_count: nat, max_total: nat)
    requires
        0 <= k <= j,
        selection(lens, k, max_count, max_total).0.len() >= max_count,
    ensures
        selection(lens, j, max_count, max_total) == selection(lens, k, max_count, max_total),
    decreases j - k,
{
    if j > k {
        lemma_selection_stable(lens, k, j - 1, max_count, max_total);
    }
}

proof fn lemma_selection_bounds(lens: Seq<nat>, k: int, max_count: nat, max_total: nat)
    requires
        0 <= k,
    ensures
        selection(lens, k, max_count, max_total).0.len() <= k,
        selection(lens, k, max_count, max_total).0.len() <= max_count,
        0 <= selection(lens, k, max_count, max_total).1,
        forall|j: int| 0 <= j < selection(lens, k, max_count, max_total).0.len() ==> 0 <= #[trigger] selection(lens, k, max_count, max_total).0[j] < k,
        forall|a: int, b: int| 0 <= a < b < selection(lens, k, max_count, max_total).0.len() ==> #[trigger] selection(lens, k, max_count, max_total).0[a] < #[trigger] selection(lens, k, max_count, max_total).0[b],
    decreases k,
{
    if k > 0 {
        lemma_selection_bounds(lens, k - 1, max_count, max_total);
    }
}

/// Pending transactions, ordered by sender and nonce.
#[derive(Debug)]
pub struct TransactionPool {
    config: TransactionPoolConfig,
    ids: Vec<[u8; 32]>,
    txs: Vec<Transaction>,
}

impl TransactionPool {
    /// The transaction identifiers, in pool order.
    pub closed spec fn id_seq(&self) -> Seq<Seq<u8>> {
        id_views(self.ids@)
    }

    /// The transactions, in pool order.
    pub closed spec fn tx_seq(&self) -> Seq<Transaction> {
        self.txs@
    }

    pub closed spec fn limits(&self) -> TransactionPoolConfig {
        self.config
    }

    /// One identifier per transaction (its signed hash), identifiers
    /// distinct, transactions strictly ordered by sender and nonce.
    pub open spec fn wf(&self) -> bool {
        &&& self.id_seq().len() == self.tx_seq().len()
        &&& forall|i: int| 0 <= i < self.tx_seq().len() ==> #[trigger] self.id_seq()[i] == signed_hash(self.tx_seq()[i])
        &&& forall|i: int| 0 <= i < self.tx_seq().len() ==> transaction_error(#[trigger] self.tx_seq()[i]) is None
        &&& forall|i: int, j: int| 0 <= i < j < self.tx_seq().len() ==> key_lt(#[trigger] self.tx_seq()[i], #[trigger] self.tx_seq()[j])
        &&& forall|i: int, j: int| 0 <= i < j < self.id_seq().len() ==> (#[trigger] self.id_seq()[i]) != (#[trigger] self.id_seq()[j])
    }

    /// Whether a transaction with this sender and nonce is pending.
    pub open spec fn has_lane(&self, sender: Seq<u8>, nonce: u64) -> bool {
        exists|i: int| 0 <= i < self.tx_seq().len() && (#[trigger] self.tx_seq()[i]).sender@ == sender && self.tx_seq()[i].nonce == nonce
    }

    /// The payload lengths, in pool order.
    pub open spec fn payload_lens(&self) -> Seq<nat> {
        self.tx_seq().map_values(|t: Transaction| t.payload@.len())
    }

    /// A pool with the default limits.
    pub fn new() -> (r: Self)
        ensures
            r.wf(),
            r.tx_seq().len() == 0,
            r.limits() == (TransactionPoolConfig { max_transactions: 10000, max_transactions_per_sender: 128 }),
    {
        TransactionPool::with_config(TransactionPoolConfig::default())
    }

    /// A pool with the given limits.
    pub fn with_config(config: TransactionPoolConfig) -> (r: Self)
        ensures
            r.wf(),
            r.tx_seq().len() == 0,
            r.limits() == config,
    {
        let r = TransactionPool { config, ids: Vec::new(), txs: Vec::new() };
        assert(r.id_seq() =~= Seq::<Seq<u8>>::empty());
        r
    }

    /// The limits.
    pub fn config(&self) -> (r: TransactionPoolConfig)
        ensures
            r == self.limits(),
    {
        self.config
    }

    /// Number of pending transactions.
    pub fn len(&self) -> (r: usize)
        ensures
            r == self.tx_seq().len(),
    {
        self.txs.len()
    }

    /// Whether no transaction is pending.
    pub fn is_empty(&self) -> (r: bool)
        ensures
            r == (self.tx_seq().len() == 0),
    {
        self.txs.len() == 0
    }

    /// Position of an identifier.
    fn index_of_id(&self, tx_id: &[u8; 32]) -> (r: Option<usize>)
        requires
            self.wf(),
        ensures
            match r {
                Some(i) => i < self.id_seq().len() && self.id_seq()[i as int] == tx_id@,
                None => !self.id_seq().contains(tx_id@),
            },
    {
        let n = self.ids.len();
        let mut i: usize = 0;
        while i < n
            invariant
                n == self.id_seq().len(),
                i <= n,
                forall|j: int| 0 <= j < i ==> self.id_seq()[j] != tx_id@,
            decreases n - i,
        {
            let id = self.ids[i];
            assert(id@ == self.id_seq()[i as int]);
            if bytes_eq(&id, tx_id) {
                return Some(i);
            }
            i += 1;
        }
        None
    }

    /// Position of a (sender, nonce) lane, or where it would be inserted.
    fn locate_lane(&self, sender: &[u8; 32], nonce: u64) -> (r: (usize, bool))
        requires
            self.wf(),
        ensures
            r.0 <= self.tx_seq().len(),
            r.1 ==> r.0 < self.tx_seq().len() && self.tx_seq()[r.0 as int].sender@ == sender@
                && self.tx_seq()[r.0 as int].nonce == nonce,
            !r.1 ==> !self.has_lane(sender@, nonce),
            !r.1 ==> forall|i: int| 0 <= i < self.tx_seq().len() ==> (i < r.0 ==> key_lt(#[trigger] self.tx_seq()[i], Transaction { sender: *sender, nonce, ..self.tx_seq()[i] })) && (r.0 <= i ==> key_lt(Transaction { sender: *sender, nonce, ..self.tx_seq()[i] }, self.tx_seq()[i])),
    {
        let ghost ts = self.tx_seq();
        let n = self.txs.len();
        let mut i: usize = 0;
        while i < n
            invariant
                ts == self.tx_seq(),
                n == ts.len(),
                self.wf(),
                i <= n,
                forall|j: int| 0 <= j < i ==> bytes_lt((#[trigger] ts[j]).sender@, sender@) || (ts[j].sender@ == sender@ && ts[j].nonce < nonce),
            decreases n - i,
        {
            let t = &self.txs[i];
            let same = bytes_eq(&t.sender, sender);
            if same && t.nonce == nonce {
                return (i, true);
            }
            let before = bytes_less(&t.sender, sender) || (same && t.nonce < nonce);
            if !before {
                proof {
                    lemma_bytes_lt_total(t.sender@, sender@);
                    assert forall|j: int| 0 <= j < n implies (j < i ==> key_lt(#[trigger] ts[j], Transaction { sender: *sender, nonce, ..ts[j] })) && (i <= j ==> key_lt(Transaction { sender: *sender, nonce, ..ts[j] }, ts[j])) by {
                        if i < j {
                            assert(key_lt(ts[i as int], ts[j]));
                            if bytes_lt(ts[i as int].sender@, ts[j].sender@) {
                                if bytes_lt(sender@, ts[i as int].sender@) {
                                    lemma_bytes_lt_transitive(sender@, ts[i as int].sender@, ts[j].sender@);
                                }
                            }
                        }
                    }
                    lemma_bytes_lt_irreflexive(sender@);
                    if self.has_lane(sender@, nonce) {
                        let j = choose|j: int| 0 <= j < ts.len() && (#[trigger] ts[j]).sender@ == sender@ && ts[j].nonce == nonce;
                        if j < i {
                            assert(bytes_lt(ts[j].sender@, sender@) || (ts[j].sender@ == sender@ && ts[j].nonce < nonce));
                        } else if j > i {
                            assert(key_lt(Transaction { sender: *sender, nonce, ..ts[j] }, ts[j]));
                        }
                    }
                }
                return (i, false);
            }
            i += 1;
        }
        proof {
            lemma_bytes_lt_irreflexive(sender@);
            if self.has_lane(sender@, nonce) {
                let j = choose|j: int| 0 <= j < ts.len() && (#[trigger] ts[j]).sender@ == sender@ && ts[j].nonce == nonce;
                assert(bytes_lt(ts[j].sender@, sender@) || (ts[j].sender@ == sender@ && ts[j].nonce < nonce));
            }
        }
        (n, false)
    }

    /// Whether an identifier is pending.
    pub fn contains_tx_id(&self, tx_id: &[u8; 32]) -> (r: bool)
        requires
            self.wf(),
        ensures
            r == self.id_seq().contains(tx_id@),
    {
        self.index_of_id(tx_id).is_some()
    }

    /// Whether a (sender, nonce) lane is taken.
    pub fn contains_sender_nonce(&self, sender: &[u8; 32], nonce: u64) -> (r: bool)
        requires
            self.wf(),
        ensures
            r == self.has_lane(sender@, nonce),
    {
        let (_, found) = self.locate_lane(sender, nonce);
        found
    }

    /// Number of pending transactions from a sender.
    pub fn sender_transaction_count(&self, sender: &[u8; 32]) -> (r: usize)
        requires
            self.wf(),
        ensures
            r == sender_count(self.tx_seq(), sender@),
    {
        let ghost ts = self.tx_seq();
        let n = self.txs.len();
        let mut count: usize = 0;
        let mut i: usize = 0;
        while i < n
            invariant
                ts == self.tx_seq(),
                n == ts.len(),
                i <= n,
                count == sender_count(ts.take(i as int), sender@),
                count <= i,
            decreases n - i,
        {
            proof {
                assert(ts.take(i + 1 as int).drop_last() =~= ts.take(i as int));
            }
            if bytes_eq(&self.txs[i].sender, sender) {
                count = count + 1;
            }
            i += 1;
        }
        assert(ts.take(n as int) =~= ts);
        count
    }

    /// The pending transaction with an identifier.
    pub fn get(&self, tx_id: &[u8; 32]) -> (r: Option<&Transaction>)
        requires
            self.wf(),
        ensures
            match r {
                Some(t) => exists|i: int| 0 <= i < self.tx_seq().len() && self.id_seq()[i] == tx_id@ && #[trigger] self.tx_seq()[i] == *t,
                None => !self.id_seq().contains(tx_id@),
            },
    {
        match self.index_of_id(tx_id) {
            Some(i) => Some(&self.txs[i]),
            None => None,
        }
    }

    /// The identifier of the transaction in a (sender, nonce) lane.
    pub fn tx_id_by_sender_nonce(&self, sender: &[u8; 32], nonce: u64) -> (r: Option<[u8; 32]>)
        requires
            self.wf(),
        ensures
            match r {
                Some(id) => exists|i: int| 0 <= i < self.tx_seq().len() && (#[trigger] self.tx_seq()[i]).sender@ == sender@
                    && self.tx_seq()[i].nonce == nonce && self.id_seq()[i] == id@,
                None => !self.has_lane(sender@, nonce),
            },
    {
        let (i, found) = self.locate_lane(sender, nonce);
        if found {
            let id = self.ids[i];
            assert(id@ == self.id_seq()[i as int]);
            Some(id)
        } else {
            None
        }
    }

    /// Inserts a new, valid transaction at its place in order.
    fn insert_at(&mut self, p: usize, tx_id: [u8; 32], tx: Transaction)
        requires
            old(self).wf(),
            p <= old(self).tx_seq().len(),
            tx_id@ == signed_hash(tx),
            transaction_error(tx) is None,
            !old(self).id_seq().contains(tx_id@),
            forall|i: int| 0 <= i < old(self).tx_seq().len() ==> (i < p ==> key_lt(#[trigger] old(self).tx_seq()[i], tx)) && (p <= i ==> key_lt(tx, old(self).tx_seq()[i])),
        ensures
            final(self).wf(),
            final(self).limits() == old(self).limits(),
            final(self).tx_seq() == old(self).tx_seq().insert(p as int, tx),
            final(self).id_seq() == old(self).id_seq().insert(p as int, tx_id@),
    {
        let ghost ts = self.tx_seq();
        let ghost is = self.id_seq();
        self.ids.insert(p, tx_id);
        self.txs.insert(p, tx);
        proof {
            let nts = self.tx_seq();
            let nis = self.id_seq();
            assert(nts =~= ts.insert(p as int, tx));
            assert(nis =~= is.insert(p as int, tx_id@));
            assert forall|i: int, j: int| 0 <= i < j < nts.len() implies key_lt(#[trigger] nts[i], #[trigger] nts[j]) by {
                let i0 = if i < p { i } else { i - 1 };
                let j0 = if j < p { j } else { j - 1 };
                if i == p {
                    assert(nts[j] == ts[j0]);
                } else if j == p {
                    assert(nts[i] == ts[i0]);
                } else {
                    assert(nts[i] == ts[i0] && nts[j] == ts[j0]);
                }
            }
            assert forall|i: int, j: int| 0 <= i < j < nis.len() implies (#[trigger] nis[i]) != (#[trigger] nis[j]) by {
                let i0 = if i < p { i } else { i - 1 };
                let j0 = if j < p { j } else { j - 1 };
                if i == p {
                    assert(nis[j] == is[j0]);
                    assert(is.contains(is[j0]));
                } else if j == p {
                    assert(nis[i] == is[i0]);
                    assert(is.contains(is[i0]));
                } else {
                    assert(nis[i] == is[i0] && nis[j] == is[j0]);
                }
            }
            assert forall|i: int| 0 <= i < nts.len() implies #[trigger] nis[i] == signed_hash(nts[i]) && transaction_error(nts[i]) is None by {
                if i < p {
                    assert(nis[i] == is[i] && nts[i] == ts[i]);
                } else if i > p {
                    assert(nis[i] == is[i - 1] && nts[i] == ts[i - 1]);
                }
            }
        }
    }

    /// Admits a transaction: it must be valid and signed, new by identifier
    /// and by (sender, nonce) lane, and within the pool and sender limits.
    /// On success the transaction is inserted at its place in order and its
    /// identifier (its signed hash) is returned; on failure nothing changes.
    #[verifier::rlimit(60)]
    pub fn add(&mut self, tx: Transaction) -> (r: Result<[u8; 32], TransactionPoolError>)
        requires
            old(self).wf(),
        ensures
            final(self).wf(),
            final(self).limits() == old(self).limits(),
            r is Err ==> *final(self) == *old(self),
            transaction_error(tx) is Some ==> r == Err::<[u8; 32], TransactionPoolError>(
                TransactionPoolError::TransactionRejected(transaction_error(tx)->0),
            ),
            transaction_error(tx) is None ==> {
                let id = signed_hash(tx);
                if old(self).id_seq().contains(id) {
                    r matches Err(TransactionPoolError::DuplicateTransactionId { tx_id }) && tx_id@ == id
                } else if old(self).has_lane(tx.sender@, tx.nonce) {
                    r matches Err(TransactionPoolError::SenderNonceConflict { sender, nonce, existing_tx_id })
                        && sender == tx.sender && nonce == tx.nonce && exists|i: int|
                        0 <= i < old(self).tx_seq().len() && (#[trigger] old(self).tx_seq()[i]).sender == tx.sender
                            && old(self).tx_seq()[i].nonce == tx.nonce && old(self).id_seq()[i] == existing_tx_id@
                } else if old(self).tx_seq().len() >= old(self).limits().max_transactions {
                    r == Err::<[u8; 32], TransactionPoolError>(TransactionPoolError::PoolFull {
                        current: old(self).tx_seq().len() as usize,
                        max: old(self).limits().max_transactions,
                    })
                } else if sender_count(old(self).tx_seq(), tx.sender@) >= old(self).limits().max_transactions_per_sender {
                    r == Err::<[u8; 32], TransactionPoolError>(TransactionPoolError::SenderPoolLimitExceeded {
                        sender: tx.sender,
                        current: sender_count(old(self).tx_seq(), tx.sender@) as usize,
                        max: old(self).limits().max_transactions_per_sender,
                    })
                } else {
                    r is Ok && r->Ok_0@ == id && exists|p: int|
                        0 <= p <= old(self).tx_seq().len() && #[trigger] final(self).tx_seq() == old(self).tx_seq().insert(p, tx)
                            && final(self).id_seq() == old(self).id_seq().insert(p, id)
                }
            },
    {
        if let Err(e) = tx.verify_signature() {
            return Err(TransactionPoolError::TransactionRejected(e));
        }
        let tx_id = match hash_transaction(&tx) {
            Ok(h) => h,
            Err(_) => return Err(TransactionPoolError::TransactionRejected(TransactionError::PayloadTooLarge)),
        };
        if self.index_of_id(&tx_id).is_some() {
            return Err(TransactionPoolError::DuplicateTransactionId { tx_id });
        }
        let (p, found) = self.locate_lane(&tx.sender, tx.nonce);
        if found {
            let existing = self.ids[p];
            assert(existing@ == self.id_seq()[p as int]);
            assert(self.tx_seq()[p as int].sender@ == tx.sender@);
            assert(self.tx_seq()[p as int].sender == tx.sender) by {
                assert(self.tx_seq()[p as int].sender@ =~= tx.sender@);
            }
            return Err(TransactionPoolError::SenderNonceConflict {
                sender: tx.sender,
                nonce: tx.nonce,
                existing_tx_id: existing,
            });
        }
        if self.txs.len() >= self.config.max_transactions {
            return Err(TransactionPoolError::PoolFull {
                current: self.txs.len(),
                max: self.config.max_transactions,
            });
        }
        let sender_count_now = self.sender_transaction_count(&tx.sender);
        if sender_count_now >= self.config.max_transactions_per_sender {
            return Err(TransactionPoolError::SenderPoolLimitExceeded {
                sender: tx.sender,
                current: sender_count_now,
                max: self.config.max_transactions_per_sender,
            });
        }
        proof {
            let ts = self.tx_seq();
            assert forall|i: int| 0 <= i < ts.len() implies (i < p ==> key_lt(#[trigger] ts[i], tx)) && (p <= i ==> key_lt(tx, ts[i])) by {
                assert(Transaction { sender: tx.sender, nonce: tx.nonce, ..ts[i] }.sender@ == tx.sender@);
            }
        }
        self.insert_at(p, tx_id, tx);
        Ok(tx_id)
    }

    /// Removes a pending transaction by identifier and returns it.
    pub fn remove(&mut self, tx_id: &[u8; 32]) -> (r: Result<Transaction, TransactionPoolError>)
        requires
            old(self).wf(),
        ensures
            final(self).wf(),
            final(self).limits() == old(self).limits(),
            match r {
                Ok(t) => exists|i: int|
                    0 <= i < old(self).tx_seq().len() && old(self).id_seq()[i] == tx_id@ && #[trigger] old(self).tx_seq()[i] == t
                        && final(self).tx_seq() == old(self).tx_seq().remove(i) && final(self).id_seq()
                        == old(self).id_seq().remove(i),
                Err(e) => !old(self).id_seq().contains(tx_id@) && e == TransactionPoolError::TransactionNotFound {
                    tx_id: *tx_id,
                } && *final(self) == *old(self),
            },
    {
        let i = match self.index_of_id(tx_id) {
            Some(i) => i,
            None => return Err(TransactionPoolError::TransactionNotFound { tx_id: *tx_id }),
        };
        let ghost ts = self.tx_seq();
        let ghost is = self.id_seq();
        self.ids.remove(i);
        let t = self.txs.remove(i);
        proof {
            let nts = self.tx_seq();
            let nis = self.id_seq();
            assert(nts =~= ts.remove(i as int));
            assert(nis =~= is.remove(i as int));
            assert forall|a: int, b: int| 0 <= a < b < nts.len() implies key_lt(#[trigger] nts[a], #[trigger] nts[b]) by {
                let a0 = if a < i { a } else { a + 1 };
                let b0 = if b < i { b } else { b + 1 };
                assert(nts[a] == ts[a0] && nts[b] == ts[b0]);
            }
            assert forall|a: int, b: int| 0 <= a < b < nis.len() implies (#[trigger] nis[a]) != (#[trigger] nis[b]) by {
                let a0 = if a < i { a } else { a + 1 };
                let b0 = if b < i { b } else { b + 1 };
                assert(nis[a] == is[a0] && nis[b] == is[b0]);
            }
            assert forall|a: int| 0 <= a < nts.len() implies #[trigger] nis[a] == signed_hash(nts[a]) && transaction_error(nts[a]) is None by {
                let a0 = if a < i { a } else { a + 1 };
                assert(nis[a] == is[a0] && nts[a] == ts[a0]);
            }
        }
        Ok(t)
    }

    /// Removes every pending transaction.
    pub fn clear(&mut self)
        requires
            old(self).wf(),
        ensures
            final(self).wf(),
            final(self).tx_seq().len() == 0,
            final(self).limits() == old(self).limits(),
    {
        self.ids = Vec::new();
        self.txs = Vec::new();
        assert(self.id_seq() =~= Seq::<Seq<u8>>::empty());
    }

    /// The pending identifiers in increasing byte order.
    pub fn sorted_tx_ids(&self) -> (r: Vec<[u8; 32]>)
        requires
            self.wf(),
        ensures
            r@.len() == self.id_seq().len(),
            forall|i: int, j: int| 0 <= i < j < r@.len() ==> bytes_lt((#[trigger] r@[i])@, (#[trigger] r@[j])@),
            forall|x: Seq<u8>| id_views(r@).contains(x) <==> self.id_seq().contains(x),
    {
        let ghost is = self.id_seq();
        let n = self.ids.len();
        let mut out: Vec<[u8; 32]> = Vec::new();
        let mut i: usize = 0;
        while i < n
            invariant
                is == self.id_seq(),
                n == is.len(),
                forall|a: int, b: int| 0 <= a < b < is.len() ==> (#[trigger] is[a]) != (#[trigger] is[b]),
                i <= n,
                out@.len() == i,
                forall|a: int, b: int| 0 <= a < b < out@.len() ==> bytes_lt((#[trigger] out@[a])@, (#[trigger] out@[b])@),
                forall|x: Seq<u8>| id_views(out@).contains(x) <==> is.take(i as int).contains(x),
            decreases n - i,
        {
            let id = self.ids[i];
            assert(id@ == is[i as int]);
            let ghost ov = id_views(out@);
            proof {
                assert forall|k: int| 0 <= k < ov.len() implies #[trigger] ov[k] != id@ by {
                    assert(ov.contains(ov[k]));
                    let t = is.take(i as int);
                    let j = choose|j: int| 0 <= j < t.len() && t[j] == ov[k];
                    assert(is[j] == ov[k]);
                }
            }
            let m = out.len();
            let mut p: usize = 0;
            while p < m
                invariant
                    m == out@.len(),
                    ov == id_views(out@),
                    p <= m,
                    forall|k: int| 0 <= k < p ==> bytes_lt((#[trigger] out@[k])@, id@),
                ensures
                    p <= m,
                    forall|k: int| 0 <= k < p ==> bytes_lt((#[trigger] out@[k])@, id@),
                    p < m ==> !bytes_lt(out@[p as int]@, id@),
                decreases m - p,
            {
                let c = out[p];
                if !bytes_less(&c, &id) {
                    break;
                }
                p += 1;
            }
            proof {
                if p < m {
                    assert(ov[p as int] == out@[p as int]@);
                    lemma_bytes_lt_total(out@[p as int]@, id@);
                    assert forall|k: int| p <= k < m implies bytes_lt(id@, (#[trigger] out@[k])@) by {
                        if p < k {
                            lemma_bytes_lt_transitive(id@, out@[p as int]@, out@[k]@);
                        }
                    }
                }
            }
            let ghost before = out@;
            out.insert(p, id);
            proof {
                let nv = out@;
                assert(nv =~= before.insert(p as int, id));
                assert forall|a: int, b: int| 0 <= a < b < nv.len() implies bytes_lt((#[trigger] nv[a])@, (#[trigger] nv[b])@) by {
                    let a0 = if a < p { a } else { a - 1 };
                    let b0 = if b < p { b } else { b - 1 };
                    if a == p {
                        assert(nv[b] == before[b0]);
                    } else if b == p {
                        assert(nv[a] == before[a0]);
                    } else {
                        assert(nv[a] == before[a0] && nv[b] == before[b0]);
                    }
                }
                let t1 = is.take(i + 1 as int);
                let t0 = is.take(i as int);
                assert(t1 =~= t0.push(id@));
                let nm = id_views(nv);
                assert(nm =~= ov.insert(p as int, id@));
                assert forall|x: Seq<u8>| nm.contains(x) <==> t1.contains(x) by {
                    if nm.contains(x) {
                        let k = choose|k: int| 0 <= k < nm.len() && nm[k] == x;
                        if k == p {
                            assert(t1[i as int] == x);
                        } else {
                            let k0 = if k < p { k } else { k - 1 };
                            assert(ov[k0] == x);
                            assert(ov.contains(x));
                            assert(t0.contains(x));
                            let j = choose|j: int| 0 <= j < t0.len() && t0[j] == x;
                            assert(t1[j] == x);
                        }
                    }
                    if t1.contains(x) {
                        let j = choose|j: int| 0 <= j < t1.len() && t1[j] == x;
                        if j == i {
                            assert(nm[p as int] == x);
                        } else {
                            assert(t0[j] == x);
                            assert(t0.contains(x));
                            assert(ov.contains(x));
                            let k = choose|k: int| 0 <= k < ov.len() && ov[k] == x;
                            if k < p {
                                assert(nm[k] == x);
                            } else {
                                assert(nm[k + 1] == x);
                            }
                        }
                    }
                }
            }
            i += 1;
        }
        assert(is.take(n as int) =~= is);
        out
    }

    /// The pending transactions with their identifiers, ordered by sender
    /// and nonce.
    pub fn snapshot_ordered(&self) -> (r: Vec<([u8; 32], &Transaction)>)
        requires
            self.wf(),
        ensures
            r@.len() == self.tx_seq().len(),
            forall|i: int| 0 <= i < r@.len() ==> (#[trigger] r@[i]).0@ == self.id_seq()[i] && *r@[i].1 == self.tx_seq()[i],
    {
        let n = self.txs.len();
        let mut out: Vec<([u8; 32], &Transaction)> = Vec::new();
        let mut i: usize = 0;
        while i < n
            invariant
                n == self.tx_seq().len(),
                n == self.id_seq().len(),
                i <= n,
                out@.len() == i,
                forall|k: int| 0 <= k < i ==> (#[trigger] out@[k]).0@ == self.id_seq()[k] && *out@[k].1 == self.tx_seq()[k],
            decreases n - i,
        {
            assert(self.ids@[i as int]@ == self.id_seq()[i as int]);
            out.push((self.ids[i], &self.txs[i]));
            i += 1;
        }
        out
    }

    /// The positions a block takes (see `selection`).
    fn select_indices(&self, max_count: usize, max_total_payload_bytes: usize) -> (r: Vec<usize>)
        requires
            self.wf(),
        ensures
            ({
                let sel = selection(self.payload_lens(), self.tx_seq().len() as int, max_count as nat, max_total_payload_bytes as nat).0;
                &&& r@.len() == sel.len()
                &&& forall|j: int| 0 <= j < r@.len() ==> (#[trigger] r@[j]) as int == sel[j]
            }),
            forall|j: int| 0 <= j < r@.len() ==> (#[trigger] r@[j]) < self.tx_seq().len(),
            forall|a: int, b: int| 0 <= a < b < r@.len() ==> (#[trigger] r@[a]) < (#[trigger] r@[b]),
    {
        let ghost lens = self.payload_lens();
        let n = self.txs.len();
        let mut out: Vec<usize> = Vec::new();
        let mut acc: usize = 0;
        let mut i: usize = 0;
        while i < n && out.len() < max_count
            invariant
                lens == self.payload_lens(),
                n == self.tx_seq().len(),
                n == lens.len(),
                i <= n,
                out@.len() == selection(lens, i as int, max_count as nat, max_total_payload_bytes as nat).0.len(),
                acc == selection(lens, i as int, max_count as nat, max_total_payload_bytes as nat).1,
                forall|j: int| 0 <= j < out@.len() ==> (#[trigger] out@[j]) as int == selection(lens, i as int, max_count as nat, max_total_payload_bytes as nat).0[j],
            decreases n - i,
        {
            proof {
                lemma_selection_bounds(lens, i as int, max_count as nat, max_total_payload_bytes as nat);
            }
            let len = self.txs[i].payload_len();
            assert(lens[i as int] == len);
            let next = acc.saturating_add(len);
            if next <= max_total_payload_bytes {
                out.push(i);
                acc = next;
            }
            i += 1;
        }
        proof {
            if i < n {
                lemma_selection_stable(lens, i as int, n as int, max_count as nat, max_total_payload_bytes as nat);
            }
            lemma_selection_bounds(lens, n as int, max_count as nat, max_total_payload_bytes as nat);
        }
        out
    }

    /// The transactions a block takes, in pool order: while fewer than
    /// `max_count` are taken, each transaction whose payload keeps the
    /// running total within `max_total_payload_bytes` is taken.
    pub fn select_for_block(&self, max_count: usize, max_total_payload_bytes: usize) -> (r: Vec<([u8; 32], &Transaction)>)
        requires
            self.wf(),
        ensures
            ({
                let sel = selection(self.payload_lens(), self.tx_seq().len() as int, max_count as nat, max_total_payload_bytes as nat).0;
                &&& r@.len() == sel.len()
                &&& forall|j: int| 0 <= j < r@.len() ==> 0 <= sel[j] < self.tx_seq().len() && (#[trigger] r@[j]).0@ == self.id_seq()[sel[j]] && *r@[j].1 == self.tx_seq()[sel[j]]
            }),
    {
        let ghost sel = selection(self.payload_lens(), self.tx_seq().len() as int, max_count as nat, max_total_payload_bytes as nat).0;
        let idx = self.select_indices(max_count, max_total_payload_bytes);
        let k = idx.len();
        let mut out: Vec<([u8; 32], &Transaction)> = Vec::new();
        let mut j: usize = 0;
        while j < k
            invariant
                sel == selection(self.payload_lens(), self.tx_seq().len() as int, max_count as nat, max_total_payload_bytes as nat).0,
                k == idx@.len(),
                k == sel.len(),
                forall|a: int| 0 <= a < k ==> (#[trigger] idx@[a]) as int == sel[a],
                j <= k,
                self.wf(),
                forall|a: int| 0 <= a < k ==> (#[trigger] idx@[a]) < self.tx_seq().len(),
                out@.len() == j,
                forall|a: int| 0 <= a < j ==> (#[trigger] out@[a]).0@ == self.id_seq()[idx@[a] as int] && *out@[a].1 == self.tx_seq()[idx@[a] as int],
            decreases k - j,
        {
            let i = idx[j];
            assert(self.ids@[i as int]@ == self.id_seq()[i as int]);
            out.push((self.ids[i], &self.txs[i]));
            j += 1;
        }
        assert forall|a: int| 0 <= a < out@.len() implies 0 <= sel[a] < self.tx_seq().len() && (#[trigger] out@[a]).0@ == self.id_seq()[sel[a]] && *out@[a].1 == self.tx_seq()[sel[a]] by {
            assert(idx@[a] as int == sel[a]);
            assert(idx@[a] < self.tx_seq().len());
        }
        assert forall|a: int| 0 <= a < out@.len() implies 0 <= #[trigger] sel[a] < self.tx_seq().len() by {
            assert(idx@[a] as int == sel[a]);
            assert(idx@[a] < self.tx_seq().len());
        }
        out
    }

    /// Removes the transactions `select_for_block` takes and returns them
    /// with their identifiers, in the same order; the others stay, in
    /// order.
    pub fn drain_for_block(&mut self, max_count: usize, max_total_payload_bytes: usize) -> (r: Vec<([u8; 32], Transaction)>)
        requires
            old(self).wf(),
        ensures
            final(self).wf(),
            final(self).limits() == old(self).limits(),
            ({
                let sel = selection(old(self).payload_lens(), old(self).tx_seq().len() as int, max_count as nat, max_total_payload_bytes as nat).0;
                &&& r@.len() == sel.len()
                &&& forall|j: int| 0 <= j < r@.len() ==> (#[trigger] r@[j]).0@ == old(self).id_seq()[sel[j]] && r@[j].1 == old(self).tx_seq()[sel[j]]
                &&& final(self).tx_seq().len() + sel.len() == old(self).tx_seq().len()
                &&& forall|b: int| 0 <= b < old(self).tx_seq().len() ==> (#[trigger] old(self).id_seq()[b] == old(self).id_seq()[b]) && (final(self).id_seq().contains(old(self).id_seq()[b]) <==> !sel.contains(b))
            }),
    {
        let ghost is0 = self.id_seq();
        let ghost ts0 = self.tx_seq();
        let ghost sel = selection(self.payload_lens(), ts0.len() as int, max_count as nat, max_total_payload_bytes as nat).0;
        let idx = self.select_indices(max_count, max_total_payload_bytes);
        let k = idx.len();
        let mut taken_ids: Vec<[u8; 32]> = Vec::new();
        let mut taken_txs: Vec<Transaction> = Vec::new();
        std::mem::swap(&mut taken_ids, &mut self.ids);
        std::mem::swap(&mut taken_txs, &mut self.txs);
        assert(id_views(taken_ids@) == is0);
        let n = taken_txs.len();
        let mut out: Vec<([u8; 32], Transaction)> = Vec::new();
        let mut q: usize = 0;
        let mut i: usize = 0;
        let ghost mut kmap: Seq<int> = Seq::empty();
        while i < n
            invariant
                is0 == old(self).id_seq(),
                ts0 == old(self).tx_seq(),
                old(self).wf(),
                n == ts0.len(),
                n == is0.len(),
                k == idx@.len(),
                k == sel.len(),
                forall|a: int| 0 <= a < k ==> (#[trigger] idx@[a]) as int == sel[a],
                forall|a: int| 0 <= a < k ==> (#[trigger] idx@[a]) < n,
                forall|a: int, b: int| 0 <= a < b < k ==> (#[trigger] idx@[a]) < (#[trigger] idx@[b]),
                self.limits() == old(self).limits(),
                i <= n,
                q <= k,
                taken_txs@ == ts0.skip(i as int),
                taken_ids@.len() == n - i,
                id_views(taken_ids@) == is0.skip(i as int),
                forall|a: int| 0 <= a < q ==> (#[trigger] idx@[a]) < i,
                q < k ==> idx@[q as int] >= i,
                out@.len() == q,
                forall|a: int| 0 <= a < q ==> (#[trigger] out@[a]).0@ == is0[idx@[a] as int] && out@[a].1 == ts0[idx@[a] as int],
                self.tx_seq().len() == kmap.len(),
                self.id_seq().len() == kmap.len(),
                kmap.len() + q == i,
                forall|a: int| 0 <= a < kmap.len() ==> 0 <= #[trigger] kmap[a] < i && !sel.contains(kmap[a]) && self.tx_seq()[a] == ts0[kmap[a]] && self.id_seq()[a] == is0[kmap[a]],
                forall|a: int, b: int| 0 <= a < b < kmap.len() ==> #[trigger] kmap[a] < #[trigger] kmap[b],
                forall|c: int| 0 <= c < i && !sel.contains(c) ==> kmap.contains(c),
            decreases n - i,
        {
            let ghost ti = taken_ids@;
            let ghost tt = taken_txs@;
            let id = taken_ids.remove(0);
            let tx = taken_txs.remove(0);
            proof {
                assert(tt[0] == ts0[i as int]);
                assert(id_views(ti)[0] == is0[i as int]);
                assert(taken_txs@ =~= ts0.skip(i + 1 as int));
                assert forall|a: int| 0 <= a < taken_ids@.len() implies #[trigger] id_views(taken_ids@)[a] == is0.skip(i + 1 as int)[a] by {
                    assert(taken_ids@[a] == ti[a + 1]);
                    assert(id_views(ti)[a + 1] == is0.skip(i as int)[a + 1]);
                }
                assert(id_views(taken_ids@) =~= is0.skip(i + 1 as int));
            }
            if q < k && idx[q] == i {
                out.push((id, tx));
                q += 1;
                proof {
                    assert forall|c: int| 0 <= c < i + 1 && !sel.contains(c) implies kmap.contains(c) by {
                        if c == i {
                            assert(sel[(q - 1) as int] == i);
                        }
                    }
                }
            } else {
                proof {
                    assert(!sel.contains(i as int)) by {
                        if sel.contains(i as int) {
                            let a = choose|a: int| 0 <= a < sel.len() && sel[a] == i;
                            if a < q {
                                assert(idx@[a] < i);
                            } else if a > q {
                                assert(idx@[q as int] < idx@[a]);
                            }
                        }
                    }
                }
                let ghost old_ks = kmap;
                self.ids.push(id);
                self.txs.push(tx);
                proof {
                    kmap = kmap.push(i as int);
                    assert forall|c: int| 0 <= c < i + 1 && !sel.contains(c) implies kmap.contains(c) by {
                        if c == i {
                            assert(kmap[kmap.len() - 1] == c);
                        } else {
                            assert(old_ks.contains(c));
                            let a = choose|a: int| 0 <= a < old_ks.len() && old_ks[a] == c;
                            assert(kmap[a] == c);
                        }
                    }
                    assert(self.id_seq() =~= id_views(self.ids@));
                }
            }
            i += 1;
        }
        proof {
            let ks = self.tx_seq();
            let kis = self.id_seq();
            assert forall|i: int| 0 <= i < ks.len() implies #[trigger] kis[i] == signed_hash(ks[i]) by {
                assert(kis[i] == is0[kmap[i]] && ks[i] == ts0[kmap[i]]);
            }
            assert forall|i: int| 0 <= i < ks.len() implies transaction_error(#[trigger] ks[i]) is None by {
                assert(ks[i] == ts0[kmap[i]]);
            }
            assert forall|a: int, b: int| 0 <= a < b < ks.len() implies key_lt(#[trigger] ks[a], #[trigger] ks[b]) by {
                assert(kmap[a] < kmap[b]);
                assert(ks[a] == ts0[kmap[a]] && ks[b] == ts0[kmap[b]]);
            }
            assert forall|a: int, b: int| 0 <= a < b < kis.len() implies (#[trigger] kis[a]) != (#[trigger] kis[b]) by {
                assert(kmap[a] < kmap[b]);
                assert(kis[a] == is0[kmap[a]] && kis[b] == is0[kmap[b]]);
            }
            assert forall|b: int| 0 <= b < n implies (#[trigger] is0[b] == is0[b]) && (kis.contains(is0[b]) <==> !sel.contains(b)) by {
                if kis.contains(is0[b]) {
                    let a = choose|a: int| 0 <= a < kis.len() && kis[a] == is0[b];
                    assert(is0[kmap[a]] == is0[b]);
                    if kmap[a] != b {
                        if kmap[a] < b {
                            assert(is0[kmap[a]] != is0[b]);
                        } else {
                            assert(is0[b] != is0[kmap[a]]);
                        }
                    }
                }
                if !sel.contains(b) {
                    assert(kmap.contains(b));
                    let a = choose|a: int| 0 <= a < kmap.len() && kmap[a] == b;
                    assert(kis[a] == is0[b]);
                }
            }
            assert(q == k) by {
                if q < k {
                    assert(idx@[q as int] < n);
                }
            }
        }
        out
    }
}

/// Inserting a transaction adds one to its sender's count and leaves every
/// other sender's count as it was.
proof fn lemma_sender_count_insert(s: Seq<Transaction>, p: int, x: Transaction, who: Seq<u8>)
    requires
        0 <= p <= s.len(),
    ensures
        sender_count(s.insert(p, x), who) == sender_count(s, who) + if x.sender@ == who {
            1nat
        } else {
            0nat
        },
    decreases s.len(),
{
    if p == s.len() {
        assert(s.insert(p, x).drop_last() =~= s);
    } else {
        lemma_sender_count_insert(s.drop_last(), p, x, who);
        assert(s.insert(p, x).drop_last() =~= s.drop_last().insert(p, x));
        assert(s.insert(p, x).last() == s.last());
    }
}

/// After a successful `add` (the pool grows by the transaction at some
/// position, with its signed hash as identifier), the identifier is pending
/// and leads to that transaction, the transaction's (sender, nonce) lane is
/// taken, its sender's count grows by one and every other sender's count
/// stays.
pub proof fn law_added_is_pending(
    before: TransactionPool,
    after: TransactionPool,
    tx: Transaction,
    p: int,
    other: Seq<u8>,
)
    requires
        before.wf(),
        after.wf(),
        0 <= p <= before.tx_seq().len(),
        after.tx_seq() == before.tx_seq().insert(p, tx),
        after.id_seq() == before.id_seq().insert(p, signed_hash(tx)),
    ensures
        after.id_seq().contains(signed_hash(tx)),
        forall|i: int|
            0 <= i < after.tx_seq().len() && after.id_seq()[i] == signed_hash(tx) ==> #[trigger] after.tx_seq()[i]
                == tx,
        after.has_lane(tx.sender@, tx.nonce),
        sender_count(after.tx_seq(), tx.sender@) == sender_count(before.tx_seq(), tx.sender@) + 1,
        other != tx.sender@ ==> sender_count(after.tx_seq(), other) == sender_count(before.tx_seq(), other),
{
    assert(after.id_seq()[p] == signed_hash(tx));
    assert(after.tx_seq()[p] == tx);
    assert forall|i: int|
        0 <= i < after.tx_seq().len() && after.id_seq()[i] == signed_hash(tx) implies #[trigger] after.tx_seq()[i]
            == tx by {
        if i != p {
            if i < p {
                assert(after.id_seq()[i] != after.id_seq()[p]);
            } else {
                assert(after.id_seq()[p] != after.id_seq()[i]);
            }
        }
    }
    lemma_sender_count_insert(before.tx_seq(), p, tx, tx.sender@);
    lemma_sender_count_insert(before.tx_seq(), p, tx, other);
}

/// Removing the identifier of a transaction that `add` just inserted gives
/// back the pool as it was before the `add`.
pub proof fn law_remove_undoes_add(
    before: TransactionPool,
    mid: TransactionPool,
    after: TransactionPool,
    tx: Transaction,
    p: int,
    i: int,
)
    requires
        mid.wf(),
        0 <= p <= before.tx_seq().len(),
        before.id_seq().len() == before.tx_seq().len(),
        mid.tx_seq() == before.tx_seq().insert(p, tx),
        mid.id_seq() == before.id_seq().insert(p, signed_hash(tx)),
        0 <= i < mid.tx_seq().len(),
        mid.id_seq()[i] == signed_hash(tx),
        after.tx_seq() == mid.tx_seq().remove(i),
        after.id_seq() == mid.id_seq().remove(i),
    ensures
        after.tx_seq() == before.tx_seq(),
        after.id_seq() == before.id_seq(),
{
    assert(mid.id_seq()[p] == signed_hash(tx));
    if i < p {
        assert(mid.id_seq()[i] != mid.id_seq()[p]);
    } else if i > p {
        assert(mid.id_seq()[p] != mid.id_seq()[i]);
    }
    assert(after.tx_seq() =~= before.tx_seq());
    assert(after.id_seq() =~= before.id_seq());
}

impl Default for TransactionPool {
    fn default() -> (r: Self)
        ensures
            r.wf(),
            r.tx_seq().len() == 0,
    {
        TransactionPool::new()
    }
}

} // verus!
