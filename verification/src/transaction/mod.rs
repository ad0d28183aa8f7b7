//! Transactions: a sender's signed, nonce-ordered request to an outpost,
//! their canonical hashes, and the pending-transaction pool.

pub mod hash;
pub mod pool;

use vstd::prelude::*;

use crate::block::Capability;
use crate::block::TargetOutpost;
use crate::crypto::ed25519_verify;
use crate::crypto::ed25519_verify_signature;
use crate::transaction::hash::push_tagged;
use crate::transaction::hash::signed_fields;
use crate::transaction::hash::tagged;
use crate::transaction::hash::tx_fields;
use crate::transaction::hash::DOMAIN_SIGNING_PAYLOAD;
use crate::text::push_bytes;
use crate::text::push_le_u16;
use crate::text::push_le_u32;
use crate::text::push_le_u64;
use crate::text::str_to_string;

verus! {

/// A transaction.
#[derive(Debug, Clone, PartialEq, Eq)]
pub struct Transaction {
    pub sender: [u8; 32],
    pub nonce: u64,
    pub capability: Capability,
    pub target: TargetOutpost,
    pub payload: Vec<u8>,
    pub signature: [u8; 64],
}

/// Transaction rejections.
#[derive(Debug, Clone, Copy, PartialEq, Eq, Structural)]
pub enum TransactionError {
    PayloadTooLarge,
    InvalidSignature,
}

impl TransactionError {
    pub open spec fn message_text(self) -> Seq<char> {
        match self {
            TransactionError::PayloadTooLarge => "transaction payload exceeds the canonical length limit"@,
            TransactionError::InvalidSignature => "transaction signature verification failed"@,
        }
    }

    /// Human-readable description of the rejection.
    pub fn message(self) -> (r: String)
        ensures
            r@ == self.message_text(),
    {
        match self {
            TransactionError::PayloadTooLarge => str_to_string("transaction payload exceeds the canonical length limit"),
            TransactionError::InvalidSignature => str_to_string("transaction signature verification failed"),
        }
    }
}

/// The payload length fits the canonical `u32` length prefix.
pub open spec fn payload_fits(tx: Transaction) -> bool {
    tx.payload@.len() <= u32::MAX
}

/// The signed message: the canonical signing payload (domain-tagged fields
/// without the signature).
pub open spec fn signing_message_of(tx: Transaction) -> Seq<u8> {
    tagged(DOMAIN_SIGNING_PAYLOAD@) + tx_fields(tx)
}

/// The signature verifies under the sender's key.
pub open spec fn signature_valid(tx: Transaction) -> bool {
    ed25519_verify(tx.sender@, signing_message_of(tx), tx.signature@)
}

/// Why a transaction is rejected, if it is.
pub open spec fn transaction_error(tx: Transaction) -> Option<TransactionError> {
    if !payload_fits(tx) {
        Some(TransactionError::PayloadTooLarge)
    } else if !signature_valid(tx) {
        Some(TransactionError::InvalidSignature)
    } else {
        None
    }
}

impl Transaction {
    /// The message the sender signs.
    pub fn signing_message(&self) -> (r: Vec<u8>)
        requires
            payload_fits(*self),
        ensures
            r@ == signing_message_of(*self),
    {
        let mut m: Vec<u8> = Vec::new();
        push_tagged(&mut m, DOMAIN_SIGNING_PAYLOAD);
        push_bytes(&mut m, &self.sender);
        push_le_u64(&mut m, self.nonce);
        m.push(self.capability.code());
        push_le_u16(&mut m, self.target.code());
        push_le_u32(&mut m, self.payload.len() as u32);
        push_bytes(&mut m, self.payload.as_slice());
        assert(m@ =~= signing_message_of(*self));
        m
    }

    /// Payload length in bytes.
    pub fn payload_len(&self) -> (r: usize)
        ensures
            r == self.payload@.len(),
    {
        self.payload.len()
    }

    /// Checks the payload bound and the sender's signature.
    pub fn verify_signature(&self) -> (r: Result<(), TransactionError>)
        ensures
            r == match transaction_error(*self) {
                Some(e) => Err(e),
                None => Ok::<(), TransactionError>(()),
            },
    {
        if self.payload.len() > u32::MAX as usize {
            return Err(TransactionError::PayloadTooLarge);
        }
        let m = self.signing_message();
        if ed25519_verify_signature(&self.sender, m.as_slice(), &self.signature) {
            Ok(())
        } else {
            Err(TransactionError::InvalidSignature)
        }
    }
}

} // verus!
