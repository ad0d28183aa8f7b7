//! Canonical transaction hashes: domain-tagged BLAKE3 over the transaction
//! fields, transaction roots and internal tree nodes.

use vstd::prelude::*;
use vstd::utf8::encode_utf8;

use crate::crypto::blake3;
use crate::crypto::blake3_digest;
use crate::transaction::Transaction;
use crate::text::le_u16;
use crate::text::le_u32;
use crate::text::le_u64;
use crate::text::lemma_le_u16_injective;
use crate::text::lemma_le_u32_injective;
use crate::text::lemma_le_u64_injective;
use crate::text::push_bytes;
use crate::text::push_le_u16;
use crate::text::push_le_u32;
use crate::text::push_le_u64;
use crate::text::push_str_bytes;

verus! {

/// Hash errors.
#[derive(Debug, Clone, Copy, PartialEq, Eq, Structural)]
pub enum TransactionHashError {
    LengthOverflow,
}

/// Hash length in bytes.
pub const HASH_SIZE: usize = 32;

/// The all-zero hash.
pub const ZERO_HASH: [u8; 32] = [0u8, 0u8, 0u8, 0u8, 0u8, 0u8, 0u8, 0u8, 0u8, 0u8, 0u8, 0u8, 0u8, 0u8, 0u8, 0u8, 0u8, 0u8, 0u8, 0u8, 0u8, 0u8, 0u8, 0u8, 0u8, 0u8, 0u8, 0u8, 0u8, 0u8, 0u8, 0u8];

/// Version byte of the hash encoding.
pub const HASH_FORMAT_VERSION: u8 = 1;

pub const PROTOCOL_HASH_NAMESPACE: &'static str = "AOXC/AOVM/TRANSACTION/HASH";

pub const DOMAIN_GENERIC: &'static str = "GENERIC";

pub const DOMAIN_SIGNING_PAYLOAD: &'static str = "SIGNING_PAYLOAD";

pub const DOMAIN_TX_INTENT: &'static str = "INTENT";

pub const DOMAIN_TX_SIGNED: &'static str = "SIGNED";

pub const DOMAIN_TX_ROOT: &'static str = "ROOT";

pub const DOMAIN_EMPTY_TX_ROOT: &'static str = "EMPTY_ROOT";

pub const DOMAIN_TX_LEAF: &'static str = "LEAF";

pub const DOMAIN_TX_INTERNAL: &'static str = "INTERNAL";

/// The prefix of every hashed message: namespace, domain and version.
pub open spec fn tagged(domain: Seq<char>) -> Seq<u8> {
    encode_utf8(PROTOCOL_HASH_NAMESPACE@) + seq![0u8] + encode_utf8(domain) + seq![0u8, HASH_FORMAT_VERSION]
}

/// The transaction fields without the signature: sender, nonce, capability
/// code, target code and the length-prefixed payload.
pub open spec fn tx_fields(tx: Transaction) -> Seq<u8> {
    tx.sender@ + le_u64(tx.nonce) + seq![tx.capability.code_value()] + le_u16(tx.target.code_value()) + le_u32(
        tx.payload@.len() as u32,
    ) + tx.payload@
}

/// The transaction fields followed by the signature.
pub open spec fn signed_fields(tx: Transaction) -> Seq<u8> {
    tx_fields(tx) + tx.signature@
}

pub open spec fn generic_hash(data: Seq<u8>) -> Seq<u8> {
    blake3(tagged(DOMAIN_GENERIC@) + le_u32(data.len() as u32) + data)
}

pub open spec fn signing_payload_hash(tx: Transaction) -> Seq<u8> {
    blake3(tagged(DOMAIN_SIGNING_PAYLOAD@) + tx_fields(tx))
}

pub open spec fn intent_hash(tx: Transaction) -> Seq<u8> {
    blake3(tagged(DOMAIN_TX_INTENT@) + tx_fields(tx))
}

/// The identifier of a transaction: its signed hash.
pub open spec fn signed_hash(tx: Transaction) -> Seq<u8> {
    blake3(tagged(DOMAIN_TX_SIGNED@) + signed_fields(tx))
}

pub open spec fn leaf_hash(tx: Transaction) -> Seq<u8> {
    blake3(tagged(DOMAIN_TX_LEAF@) + signed_hash(tx))
}

pub open spec fn leaf_hashes(txs: Seq<Transaction>) -> Seq<u8>
    decreases txs.len(),
{
    if txs.len() == 0 {
        seq![]
    } else {
        leaf_hashes(txs.drop_last()) + leaf_hash(txs.last())
    }
}

pub open spec fn empty_root() -> Seq<u8> {
    blake3(tagged(DOMAIN_EMPTY_TX_ROOT@))
}

/// The root of a list of transactions.
pub open spec fn transaction_root(txs: Seq<Transaction>) -> Seq<u8> {
    if txs.len() == 0 {
        empty_root()
    } else {
        blake3(tagged(DOMAIN_TX_ROOT@) + le_u32(txs.len() as u32) + leaf_hashes(txs))
    }
}

pub open spec fn all_fit(txs: Seq<Transaction>) -> bool {
    forall|i: int| 0 <= i < txs.len() ==> (#[trigger] txs[i]).payload@.len() <= u32::MAX
}

pub(crate) fn push_tagged(out: &mut Vec<u8>, domain: &str)
    ensures
        final(out)@ == old(out)@ + tagged(domain@),
{
    push_str_bytes(out, PROTOCOL_HASH_NAMESPACE);
    out.push(0u8);
    push_str_bytes(out, domain);
    out.push(0u8);
    out.push(HASH_FORMAT_VERSION);
    assert(final(out)@ =~= old(out)@ + tagged(domain@));
}

fn push_tx_fields(out: &mut Vec<u8>, tx: &Transaction)
    requires
        tx.payload@.len() <= u32::MAX,
    ensures
        final(out)@ == old(out)@ + tx_fields(*tx),
{
    push_bytes(out, &tx.sender);
    push_le_u64(out, tx.nonce);
    out.push(tx.capability.code());
    push_le_u16(out, tx.target.code());
    push_le_u32(out, tx.payload.len() as u32);
    push_bytes(out, tx.payload.as_slice());
    assert(final(out)@ =~= old(out)@ + tx_fields(*tx));
}

/// A length as a `u32`, refused above `u32::MAX`.
pub fn checked_len(value: usize) -> (r: Result<u32, TransactionHashError>)
    ensures
        match r {
            Ok(n) => value <= u32::MAX && n == value,
            Err(e) => value > u32::MAX && e == TransactionHashError::LengthOverflow,
        },
{
    if value > u32::MAX as usize {
        Err(TransactionHashError::LengthOverflow)
    } else {
        Ok(value as u32)
    }
}

/// The domain-separated hash of arbitrary data (length-prefixed).
pub fn try_compute_hash(data: &[u8]) -> (r: Result<[u8; HASH_SIZE], TransactionHashError>)
    ensures
        match r {
            Ok(h) => data@.len() <= u32::MAX && h@ == generic_hash(data@),
            Err(e) => data@.len() > u32::MAX && e == TransactionHashError::LengthOverflow,
        },
{
    let len = match checked_len(data.len()) {
        Ok(n) => n,
        Err(e) => return Err(e),
    };
    let mut m: Vec<u8> = Vec::new();
    push_tagged(&mut m, DOMAIN_GENERIC);
    push_le_u32(&mut m, len);
    push_bytes(&mut m, data);
    assert(m@ =~= tagged(DOMAIN_GENERIC@) + le_u32(data@.len() as u32) + data@);
    Ok(blake3_digest(m.as_slice()))
}

/// The domain-separated hash of arbitrary data (same as `try_compute_hash`).
pub fn compute_hash(data: &[u8]) -> (r: Result<[u8; HASH_SIZE], TransactionHashError>)
    ensures
        match r {
            Ok(h) => data@.len() <= u32::MAX && h@ == generic_hash(data@),
            Err(e) => data@.len() > u32::MAX && e == TransactionHashError::LengthOverflow,
        },
{
    try_compute_hash(data)
}

/// The root of no transactions.
pub fn empty_transaction_root() -> (r: [u8; HASH_SIZE])
    ensures
        r@ == empty_root(),
{
    let mut m: Vec<u8> = Vec::new();
    push_tagged(&mut m, DOMAIN_EMPTY_TX_ROOT);
    blake3_digest(m.as_slice())
}

/// The hash of the signing payload.
pub fn try_hash_signing_payload(tx: &Transaction) -> (r: Result<[u8; HASH_SIZE], TransactionHashError>)
    ensures
        match r {
            Ok(h) => tx.payload@.len() <= u32::MAX && h@ == signing_payload_hash(*tx),
            Err(e) => tx.payload@.len() > u32::MAX && e == TransactionHashError::LengthOverflow,
        },
{
    if let Err(e) = checked_len(tx.payload.len()) {
        return Err(e);
    }
    let mut m: Vec<u8> = Vec::new();
    push_tagged(&mut m, DOMAIN_SIGNING_PAYLOAD);
    push_tx_fields(&mut m, tx);
    Ok(blake3_digest(m.as_slice()))
}

/// The hash of the signing payload (same as `try_hash_signing_payload`).
pub fn hash_signing_payload(tx: &Transaction) -> (r: Result<[u8; HASH_SIZE], TransactionHashError>)
    ensures
        match r {
            Ok(h) => tx.payload@.len() <= u32::MAX && h@ == signing_payload_hash(*tx),
            Err(e) => tx.payload@.len() > u32::MAX && e == TransactionHashError::LengthOverflow,
        },
{
    try_hash_signing_payload(tx)
}

/// The intent hash: the transaction without its signature.
pub fn try_hash_transaction_intent(tx: &Transaction) -> (r: Result<[u8; HASH_SIZE], TransactionHashError>)
    ensures
        match r {
            Ok(h) => tx.payload@.len() <= u32::MAX && h@ == intent_hash(*tx),
            Err(e) => tx.payload@.len() > u32::MAX && e == TransactionHashError::LengthOverflow,
        },
{
    if let Err(e) = checked_len(tx.payload.len()) {
        return Err(e);
    }
    let mut m: Vec<u8> = Vec::new();
    push_tagged(&mut m, DOMAIN_TX_INTENT);
    push_tx_fields(&mut m, tx);
    Ok(blake3_digest(m.as_slice()))
}

/// The intent hash (same as `try_hash_transaction_intent`).
pub fn hash_transaction_intent(tx: &Transaction) -> (r: Result<[u8; HASH_SIZE], TransactionHashError>)
    ensures
        match r {
            Ok(h) => tx.payload@.len() <= u32::MAX && h@ == intent_hash(*tx),
            Err(e) => tx.payload@.len() > u32::MAX && e == TransactionHashError::LengthOverflow,
        },
{
    try_hash_transaction_intent(tx)
}

/// The signed hash: the transaction with its signature.
pub fn try_hash_transaction(tx: &Transaction) -> (r: Result<[u8; HASH_SIZE], TransactionHashError>)
    ensures
        match r {
            Ok(h) => tx.payload@.len() <= u32::MAX && h@ == signed_hash(*tx),
            Err(e) => tx.payload@.len() > u32::MAX && e == TransactionHashError::LengthOverflow,
        },
{
    if let Err(e) = checked_len(tx.payload.len()) {
        return Err(e);
    }
    let mut m: Vec<u8> = Vec::new();
    push_tagged(&mut m, DOMAIN_TX_SIGNED);
    push_tx_fields(&mut m, tx);
    push_bytes(&mut m, &tx.signature);
    assert(m@ =~= tagged(DOMAIN_TX_SIGNED@) + signed_fields(*tx));
    Ok(blake3_digest(m.as_slice()))
}

/// The signed hash (same as `try_hash_transaction`).
pub fn hash_transaction(tx: &Transaction) -> (r: Result<[u8; HASH_SIZE], TransactionHashError>)
    ensures
        match r {
            Ok(h) => tx.payload@.len() <= u32::MAX && h@ == signed_hash(*tx),
            Err(e) => tx.payload@.len() > u32::MAX && e == TransactionHashError::LengthOverflow,
        },
{
    try_hash_transaction(tx)
}

/// The leaf hash: the signed hash under the leaf domain.
pub fn try_hash_transaction_leaf(tx: &Transaction) -> (r: Result<[u8; HASH_SIZE], TransactionHashError>)
    ensures
        match r {
            Ok(h) => tx.payload@.len() <= u32::MAX && h@ == leaf_hash(*tx),
            Err(e) => tx.payload@.len() > u32::MAX && e == TransactionHashError::LengthOverflow,
        },
{
    let tx_hash = match try_hash_transaction(tx) {
        Ok(h) => h,
        Err(e) => return Err(e),
    };
    let mut m: Vec<u8> = Vec::new();
    push_tagged(&mut m, DOMAIN_TX_LEAF);
    push_bytes(&mut m, &tx_hash);
    Ok(blake3_digest(m.as_slice()))
}

/// The leaf hash (same as `try_hash_transaction_leaf`).
pub fn hash_transaction_leaf(tx: &Transaction) -> (r: Result<[u8; HASH_SIZE], TransactionHashError>)
    ensures
        match r {
            Ok(h) => tx.payload@.len() <= u32::MAX && h@ == leaf_hash(*tx),
            Err(e) => tx.payload@.len() > u32::MAX && e == TransactionHashError::LengthOverflow,
        },
{
    try_hash_transaction_leaf(tx)
}

/// The root of a list of transactions: refused when there are more than
/// `u32::MAX` of them or a payload is too long.
pub fn try_calculate_transaction_root(transactions: &[Transaction]) -> (r: Result<
    [u8; HASH_SIZE],
    TransactionHashError,
>)
    ensures
        match r {
            Ok(h) => transactions@.len() <= u32::MAX && all_fit(transactions@) && h@ == transaction_root(
                transactions@,
            ),
            Err(e) => e == TransactionHashError::LengthOverflow && (transactions@.len() > u32::MAX
                || !all_fit(transactions@)),
        },
{
    if transactions.len() == 0 {
        return Ok(empty_transaction_root());
    }
    let count = match checked_len(transactions.len()) {
        Ok(c) => c,
        Err(e) => return Err(e),
    };
    let mut m: Vec<u8> = Vec::new();
    push_tagged(&mut m, DOMAIN_TX_ROOT);
    push_le_u32(&mut m, count);
    let ghost head = m@;
    let n = transactions.len();
    let mut i: usize = 0;
    while i < n
        invariant
            n == transactions@.len(),
            0 < n <= u32::MAX,
            i <= n,
            all_fit(transactions@.take(i as int)),
            m@ == head + leaf_hashes(transactions@.take(i as int)),
            head == tagged(DOMAIN_TX_ROOT@) + le_u32(n as u32),
        decreases n - i,
    {
        let leaf = match try_hash_transaction_leaf(&transactions[i]) {
            Ok(h) => h,
            Err(e) => {
                assert(!all_fit(transactions@)) by {
                    assert(transactions@[i as int].payload@.len() > u32::MAX);
                }
                return Err(e);
            },
        };
        push_bytes(&mut m, &leaf);
        proof {
            assert(transactions@.take(i + 1 as int).drop_last() =~= transactions@.take(i as int));
            assert(all_fit(transactions@.take(i + 1 as int))) by {
                assert forall|j: int| 0 <= j < i + 1 implies (#[trigger] transactions@.take(i + 1 as int)[j]).payload@.len() <= u32::MAX by {
                    if j < i {
                        assert(transactions@.take(i + 1 as int)[j] == transactions@.take(i as int)[j]);
                    }
                }
            }
        }
        i += 1;
    }
    assert(transactions@.take(n as int) =~= transactions@);
    Ok(blake3_digest(m.as_slice()))
}

/// The root of a list of transactions (same as `try_calculate_transaction_root`).
pub fn calculate_transaction_root(transactions: &[Transaction]) -> (r: Result<[u8; HASH_SIZE], TransactionHashError>)
    ensures
        match r {
            Ok(h) => transactions@.len() <= u32::MAX && all_fit(transactions@) && h@ == transaction_root(
                transactions@,
            ),
            Err(e) => e == TransactionHashError::LengthOverflow && (transactions@.len() > u32::MAX
                || !all_fit(transactions@)),
        },
{
    try_calculate_transaction_root(transactions)
}

/// An internal tree node: the hash of its two children.
pub fn hash_internal_node(left: &[u8; HASH_SIZE], right: &[u8; HASH_SIZE]) -> (r: [u8; HASH_SIZE])
    ensures
        r@ == blake3(tagged(DOMAIN_TX_INTERNAL@) + left@ + right@),
{
    let mut m: Vec<u8> = Vec::new();
    push_tagged(&mut m, DOMAIN_TX_INTERNAL);
    push_bytes(&mut m, left);
    push_bytes(&mut m, right);
    assert(m@ =~= tagged(DOMAIN_TX_INTERNAL@) + left@ + right@);
    blake3_digest(m.as_slice())
}

/// The intent hash does not depend on the signature.
pub proof fn law_intent_ignores_signature(a: Transaction, b: Transaction)
    requires
        a.sender == b.sender,
        a.nonce == b.nonce,
        a.capability == b.capability,
        a.target == b.target,
        a.payload@ == b.payload@,
    ensures
        intent_hash(a) == intent_hash(b),
        signing_payload_hash(a) == signing_payload_hash(b),
{
    assert(tx_fields(a) =~= tx_fields(b));
}

/// The transaction fields of two transactions are the same bytes exactly
/// when their sender, nonce, capability, target and payload agree.
#[verifier::rlimit(40)]
proof fn lemma_tx_fields_injective(a: Transaction, b: Transaction)
    requires
        a.payload@.len() <= u32::MAX,
        b.payload@.len() <= u32::MAX,
    ensures
        tx_fields(a) == tx_fields(b) <==> (a.sender@ == b.sender@ && a.nonce == b.nonce && a.capability
            == b.capability && a.target == b.target && a.payload@ == b.payload@),
{
    let fa = tx_fields(a);
    let fb = tx_fields(b);
    assert(a.sender@.len() == 32 && b.sender@.len() == 32);
    if fa == fb {
        assert(fa.subrange(0, 32) =~= a.sender@);
        assert(fb.subrange(0, 32) =~= b.sender@);
        assert(fa.subrange(32, 40) =~= le_u64(a.nonce));
        assert(fb.subrange(32, 40) =~= le_u64(b.nonce));
        lemma_le_u64_injective(a.nonce, b.nonce);
        assert(fa[40] == a.capability.code_value());
        assert(fb[40] == b.capability.code_value());
        assert(fa.subrange(41, 43) =~= le_u16(a.target.code_value()));
        assert(fb.subrange(41, 43) =~= le_u16(b.target.code_value()));
        lemma_le_u16_injective(a.target.code_value(), b.target.code_value());
        assert(fa.subrange(43, 47) =~= le_u32(a.payload@.len() as u32));
        assert(fb.subrange(43, 47) =~= le_u32(b.payload@.len() as u32));
        lemma_le_u32_injective(a.payload@.len() as u32, b.payload@.len() as u32);
        assert(fa.skip(47) =~= a.payload@);
        assert(fb.skip(47) =~= b.payload@);
    }
    if a.sender@ == b.sender@ && a.nonce == b.nonce && a.capability == b.capability && a.target == b.target
        && a.payload@ == b.payload@ {
        assert(fa =~= fb);
    }
}

/// The intent hash is BLAKE3 of a message that fixes the transaction's
/// sender, nonce, capability, target and payload: the intent hashes of two
/// transactions come from one message exactly when those fields agree.
pub proof fn law_intent_hash_commits_fields(a: Transaction, b: Transaction)
    requires
        a.payload@.len() <= u32::MAX,
        b.payload@.len() <= u32::MAX,
    ensures
        exists|ma: Seq<u8>, mb: Seq<u8>|
            #![trigger blake3(ma), blake3(mb)]
            intent_hash(a) == blake3(ma) && intent_hash(b) == blake3(mb) && (ma == mb <==> (a.sender@
                == b.sender@ && a.nonce == b.nonce && a.capability == b.capability && a.target == b.target
                && a.payload@ == b.payload@)),
{
    let t = tagged(DOMAIN_TX_INTENT@);
    let ma = t + tx_fields(a);
    let mb = t + tx_fields(b);
    lemma_tx_fields_injective(a, b);
    if ma == mb {
        assert(ma.skip(t.len() as int) =~= tx_fields(a));
        assert(mb.skip(t.len() as int) =~= tx_fields(b));
    }
    assert(intent_hash(a) == blake3(ma) && intent_hash(b) == blake3(mb));
}

/// The signing-payload hash likewise fixes the transaction's sender, nonce,
/// capability, target and payload.
pub proof fn law_signing_payload_hash_commits_fields(a: Transaction, b: Transaction)
    requires
        a.payload@.len() <= u32::MAX,
        b.payload@.len() <= u32::MAX,
    ensures
        exists|ma: Seq<u8>, mb: Seq<u8>|
            #![trigger blake3(ma), blake3(mb)]
            signing_payload_hash(a) == blake3(ma) && signing_payload_hash(b) == blake3(mb) && (ma == mb
                <==> (a.sender@ == b.sender@ && a.nonce == b.nonce && a.capability == b.capability
                && a.target == b.target && a.payload@ == b.payload@)),
{
    let t = tagged(DOMAIN_SIGNING_PAYLOAD@);
    let ma = t + tx_fields(a);
    let mb = t + tx_fields(b);
    lemma_tx_fields_injective(a, b);
    if ma == mb {
        assert(ma.skip(t.len() as int) =~= tx_fields(a));
        assert(mb.skip(t.len() as int) =~= tx_fields(b));
    }
    assert(signing_payload_hash(a) == blake3(ma) && signing_payload_hash(b) == blake3(mb));
}

/// The signed hash fixes the transaction's fields and its signature: the
/// signed hashes of two transactions come from one message exactly when
/// sender, nonce, capability, target, payload and signature all agree.
pub proof fn law_signed_hash_commits_fields(a: Transaction, b: Transaction)
    requires
        a.payload@.len() <= u32::MAX,
        b.payload@.len() <= u32::MAX,
    ensures
        exists|ma: Seq<u8>, mb: Seq<u8>|
            #![trigger blake3(ma), blake3(mb)]
            signed_hash(a) == blake3(ma) && signed_hash(b) == blake3(mb) && (ma == mb <==> (a.sender@
                == b.sender@ && a.nonce == b.nonce && a.capability == b.capability && a.target == b.target
                && a.payload@ == b.payload@ && a.signature@ == b.signature@)),
{
    let t = tagged(DOMAIN_TX_SIGNED@);
    let ma = t + signed_fields(a);
    let mb = t + signed_fields(b);
    lemma_tx_fields_injective(a, b);
    assert(a.signature@.len() == 64 && b.signature@.len() == 64);
    if ma == mb {
        let fa = tx_fields(a);
        let fb = tx_fields(b);
        assert(ma.skip(t.len() as int) =~= fa + a.signature@);
        assert(mb.skip(t.len() as int) =~= fb + b.signature@);
        assert(fa.len() == fb.len());
        assert((fa + a.signature@).take(fa.len() as int) =~= fa);
        assert((fb + b.signature@).take(fb.len() as int) =~= fb);
        assert((fa + a.signature@).skip(fa.len() as int) =~= a.signature@);
        assert((fb + b.signature@).skip(fb.len() as int) =~= b.signature@);
    }
    if a.sender@ == b.sender@ && a.nonce == b.nonce && a.capability == b.capability && a.target == b.target
        && a.payload@ == b.payload@ && a.signature@ == b.signature@ {
        assert(ma =~= mb);
    }
    assert(signed_hash(a) == blake3(ma) && signed_hash(b) == blake3(mb));
}

/// A leaf hash is BLAKE3 of a message that fixes the transaction's signed
/// hash: two leaves come from one message exactly when the signed hashes
/// agree.
pub proof fn law_leaf_hash_commits_signed_hash(a: Transaction, b: Transaction)
    ensures
        exists|ma: Seq<u8>, mb: Seq<u8>|
            #![trigger blake3(ma), blake3(mb)]
            leaf_hash(a) == blake3(ma) && leaf_hash(b) == blake3(mb) && (ma == mb <==> signed_hash(a)
                == signed_hash(b)),
{
    let t = tagged(DOMAIN_TX_LEAF@);
    let ma = t + signed_hash(a);
    let mb = t + signed_hash(b);
    if ma == mb {
        assert(ma.skip(t.len() as int) =~= signed_hash(a));
        assert(mb.skip(t.len() as int) =~= signed_hash(b));
    }
    assert(leaf_hash(a) == blake3(ma) && leaf_hash(b) == blake3(mb));
}

/// The root of a non-empty list of transactions is BLAKE3 of a message that
/// fixes the number of transactions and their leaf hashes in order.
pub proof fn law_transaction_root_commits_leaves(a: Seq<Transaction>, b: Seq<Transaction>)
    requires
        0 < a.len() <= u32::MAX,
        0 < b.len() <= u32::MAX,
    ensures
        exists|ma: Seq<u8>, mb: Seq<u8>|
            #![trigger blake3(ma), blake3(mb)]
            transaction_root(a) == blake3(ma) && transaction_root(b) == blake3(mb) && (ma == mb <==> (a.len()
                == b.len() && leaf_hashes(a) == leaf_hashes(b))),
{
    let t = tagged(DOMAIN_TX_ROOT@);
    let ma = t + le_u32(a.len() as u32) + leaf_hashes(a);
    let mb = t + le_u32(b.len() as u32) + leaf_hashes(b);
    let n = t.len() as int;
    if ma == mb {
        assert(ma.subrange(n, n + 4) =~= le_u32(a.len() as u32));
        assert(mb.subrange(n, n + 4) =~= le_u32(b.len() as u32));
        lemma_le_u32_injective(a.len() as u32, b.len() as u32);
        assert(ma.skip(n + 4) =~= leaf_hashes(a));
        assert(mb.skip(n + 4) =~= leaf_hashes(b));
    }
    assert(transaction_root(a) == blake3(ma) && transaction_root(b) == blake3(mb));
}

} // verus!
