//! Accounts: nonce, capability, energy balance and bounded metadata, with
//! checked arithmetic.

use vstd::prelude::*;

use crate::block::Capability;
use crate::text::push_decimal_u64;
use crate::text::push_str;
use crate::text::str_to_string;
use crate::text::string_from_chars;
use crate::text::dec_digits;

verus! {

/// Maximum metadata size, in bytes.
pub const MAX_ACCOUNT_METADATA_BYTES: usize = 4096;

/// Account errors.
#[derive(Debug, Clone, Copy, PartialEq, Eq, Structural)]
pub enum AccountError {
    NonceOverflow,
    EnergyOverflow,
    EnergyUnderflow,
    MetadataTooLarge { size: usize, max: usize },
}

impl AccountError {
    pub open spec fn message_text(&self) -> Seq<char> {
        match self {
            AccountError::NonceOverflow => "account nonce overflow"@,
            AccountError::EnergyOverflow => "account energy overflow"@,
            AccountError::EnergyUnderflow => "account energy underflow"@,
            AccountError::MetadataTooLarge { size, max } => "account metadata size "@ + dec_digits(
                *size as nat,
            ) + " exceeds maximum "@ + dec_digits(*max as nat),
        }
    }

    /// Human-readable description of the error.
    pub fn message(&self) -> (r: String)
        ensures
            r@ == self.message_text(),
    {
        match self {
            AccountError::NonceOverflow => str_to_string("account nonce overflow"),
            AccountError::EnergyOverflow => str_to_string("account energy overflow"),
            AccountError::EnergyUnderflow => str_to_string("account energy underflow"),
            AccountError::MetadataTooLarge { size, max } => {
                let mut out: Vec<char> = Vec::new();
                push_str(&mut out, "account metadata size ");
                push_decimal_u64(&mut out, *size as u64);
                push_str(&mut out, " exceeds maximum ");
                push_decimal_u64(&mut out, *max as u64);
                string_from_chars(&out)
            },
        }
    }
}

/// An account.
#[derive(Debug, Clone, PartialEq, Eq)]
pub struct Account {
    pub nonce: u64,
    pub capability: Capability,
    pub energy: u64,
    pub metadata: Option<Vec<u8>>,
}

/// Metadata over `MAX_ACCOUNT_METADATA_BYTES` is refused.
pub open spec fn metadata_error(size: nat) -> Option<AccountError> {
    if size > MAX_ACCOUNT_METADATA_BYTES {
        Some(AccountError::MetadataTooLarge { size: size as usize, max: MAX_ACCOUNT_METADATA_BYTES })
    } else {
        None
    }
}

pub open spec fn metadata_size(a: Account) -> nat {
    match a.metadata {
        Some(m) => m@.len(),
        None => 0,
    }
}

fn validate_metadata_len(size: usize) -> (r: Result<(), AccountError>)
    ensures
        r == match metadata_error(size as nat) {
            Some(e) => Err(e),
            None => Ok::<(), AccountError>(()),
        },
{
    if size > MAX_ACCOUNT_METADATA_BYTES {
        return Err(AccountError::MetadataTooLarge { size, max: MAX_ACCOUNT_METADATA_BYTES });
    }
    Ok(())
}

impl Account {
    /// A fresh account: nonce and energy zero, no metadata.
    pub open spec fn new_spec(capability: Capability) -> Self {
        Account { nonce: 0, capability, energy: 0, metadata: None }
    }

    /// A fresh account: nonce and energy zero, no metadata.
    pub fn new(capability: Capability) -> (r: Self)
        ensures
            r == Account::new_spec(capability),
    {
        Account { nonce: 0, capability, energy: 0, metadata: None }
    }

    /// A fresh account with initial energy.
    pub fn with_energy(capability: Capability, energy: u64) -> (r: Self)
        ensures
            r == (Account { nonce: 0, capability, energy, metadata: None }),
    {
        Account { nonce: 0, capability, energy, metadata: None }
    }

    /// A fresh account with energy and metadata; oversized metadata is
    /// refused.
    pub fn with_metadata(capability: Capability, energy: u64, metadata: Vec<u8>) -> (r: Result<
        Self,
        AccountError,
    >)
        ensures
            r == match metadata_error(metadata@.len()) {
                Some(e) => Err(e),
                None => Ok(Account { nonce: 0, capability, energy, metadata: Some(metadata) }),
            },
    {
        if let Err(e) = validate_metadata_len(metadata.len()) {
            return Err(e);
        }
        Ok(Account { nonce: 0, capability, energy, metadata: Some(metadata) })
    }

    /// Checks the metadata bound.
    pub fn validate(&self) -> (r: Result<(), AccountError>)
        ensures
            r == match metadata_error(metadata_size(*self)) {
                Some(e) => Err(e),
                None => Ok::<(), AccountError>(()),
            },
    {
        match &self.metadata {
            Some(m) => validate_metadata_len(m.len()),
            None => Ok(()),
        }
    }

    /// Advances the nonce by one; at `u64::MAX` it is refused and nothing
    /// changes.
    pub fn increment_nonce(&mut self) -> (r: Result<(), AccountError>)
        ensures
            match r {
                Ok(()) => old(self).nonce < u64::MAX && *final(self) == (Account {
                    nonce: (old(self).nonce + 1) as u64,
                    ..*old(self)
                }),
                Err(e) => old(self).nonce == u64::MAX && e == AccountError::NonceOverflow && *final(self)
                    == *old(self),
            },
    {
        match self.nonce.checked_add(1) {
            Some(n) => {
                self.nonce = n;
                Ok(())
            },
            None => Err(AccountError::NonceOverflow),
        }
    }

    /// Sets the nonce.
    pub fn set_nonce(&mut self, nonce: u64)
        ensures
            *final(self) == (Account { nonce, ..*old(self) }),
    {
        self.nonce = nonce;
    }

    /// Adds energy; an overflow is refused and nothing changes.
    pub fn add_energy(&mut self, value: u64) -> (r: Result<(), AccountError>)
        ensures
            match r {
                Ok(()) => old(self).energy + value <= u64::MAX && *final(self) == (Account {
                    energy: (old(self).energy + value) as u64,
                    ..*old(self)
                }),
                Err(e) => old(self).energy + value > u64::MAX && e == AccountError::EnergyOverflow
                    && *final(self) == *old(self),
            },
    {
        match self.energy.checked_add(value) {
            Some(n) => {
                self.energy = n;
                Ok(())
            },
            None => Err(AccountError::EnergyOverflow),
        }
    }

    /// Consumes energy; consuming more than the balance is refused and
    /// nothing changes.
    pub fn consume_energy(&mut self, value: u64) -> (r: Result<(), AccountError>)
        ensures
            match r {
                Ok(()) => value <= old(self).energy && *final(self) == (Account {
                    energy: (old(self).energy - value) as u64,
                    ..*old(self)
                }),
                Err(e) => value > old(self).energy && e == AccountError::EnergyUnderflow && *final(self)
                    == *old(self),
            },
    {
        match self.energy.checked_sub(value) {
            Some(n) => {
                self.energy = n;
                Ok(())
            },
            None => Err(AccountError::EnergyUnderflow),
        }
    }

    /// Sets the energy.
    pub fn set_energy(&mut self, value: u64)
        ensures
            *final(self) == (Account { energy: value, ..*old(self) }),
    {
        self.energy = value;
    }

    /// Sets the metadata; oversized metadata is refused and nothing changes.
    pub fn set_metadata(&mut self, data: Vec<u8>) -> (r: Result<(), AccountError>)
        ensures
            match metadata_error(data@.len()) {
                Some(e) => r == Err::<(), AccountError>(e) && *final(self) == *old(self),
                None => r is Ok && *final(self) == (Account { metadata: Some(data), ..*old(self) }),
            },
    {
        if let Err(e) = validate_metadata_len(data.len()) {
            return Err(e);
        }
        self.metadata = Some(data);
        Ok(())
    }

    /// Replaces the metadata (`None` clears it); oversized metadata is
    /// refused and nothing changes.
    pub fn replace_metadata(&mut self, data: Option<Vec<u8>>) -> (r: Result<(), AccountError>)
        ensures
            match data {
                Some(bytes) => match metadata_error(bytes@.len()) {
                    Some(e) => r == Err::<(), AccountError>(e) && *final(self) == *old(self),
                    None => r is Ok && *final(self) == (Account { metadata: Some(bytes), ..*old(self) }),
                },
                None => r is Ok && *final(self) == (Account { metadata: None, ..*old(self) }),
            },
    {
        match data {
            Some(bytes) => self.set_metadata(bytes),
            None => {
                self.metadata = None;
                Ok(())
            },
        }
    }

    /// Removes the metadata.
    pub fn clear_metadata(&mut self)
        ensures
            *final(self) == (Account { metadata: None, ..*old(self) }),
    {
        self.metadata = None;
    }

    /// Whether metadata is present.
    pub fn has_metadata(&self) -> (r: bool)
        ensures
            r == self.metadata is Some,
    {
        self.metadata.is_some()
    }

    /// Metadata length in bytes (zero without metadata).
    pub fn metadata_len(&self) -> (r: usize)
        ensures
            r == metadata_size(*self),
    {
        match &self.metadata {
            Some(m) => m.len(),
            None => 0,
        }
    }

    /// The energy balance.
    pub fn energy(&self) -> (r: u64)
        ensures
            r == self.energy,
    {
        self.energy
    }

    /// The nonce.
    pub fn nonce(&self) -> (r: u64)
        ensures
            r == self.nonce,
    {
        self.nonce
    }

    /// Whether the balance covers `value`.
    pub fn can_afford_energy(&self, value: u64) -> (r: bool)
        ensures
            r == (self.energy >= value),
    {
        self.energy >= value
    }
}

/// Consuming what was added restores the balance, when the addition
/// succeeded.
pub proof fn law_add_then_consume(a: Account, value: u64)
    requires
        a.energy + value <= u64::MAX,
    ensures
        (Account { energy: ((Account { energy: (a.energy + value) as u64, ..a }).energy - value) as u64, ..a }) == a,
{
}

} // verus!
