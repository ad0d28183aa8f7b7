//! Accounts: nonce and energy arithmetic and bounded metadata.

use aoxcore::block::Capability;
use aoxcore::state::account::Account;
use aoxcore::state::account::AccountError;
use aoxcore::state::account::MAX_ACCOUNT_METADATA_BYTES;

fn sample_capability() -> Capability {
    Capability::User
}

#[test]
fn new_account_starts_from_canonical_zero_state() {
    let account = Account::new(sample_capability());

    assert_eq!(account.nonce, 0);
    assert_eq!(account.energy, 0);
    assert_eq!(account.metadata, None);
    assert!(account.validate().is_ok());
}

#[test]
fn with_energy_sets_initial_energy() {
    let account = Account::with_energy(sample_capability(), 55);

    assert_eq!(account.energy, 55);
    assert_eq!(account.nonce, 0);
    assert!(account.metadata.is_none());
}

#[test]
fn with_metadata_rejects_oversized_input() {
    let oversized = vec![0u8; MAX_ACCOUNT_METADATA_BYTES + 1];

    let result = Account::with_metadata(sample_capability(), 10, oversized);
    assert_eq!(
        result,
        Err(AccountError::MetadataTooLarge {
            size: MAX_ACCOUNT_METADATA_BYTES + 1,
            max: MAX_ACCOUNT_METADATA_BYTES
        })
    );
}

#[test]
fn with_metadata_accepts_bounded_input() {
    let account =
        Account::with_metadata(sample_capability(), 10, vec![1, 2, 3]).expect("valid account");

    assert_eq!(account.energy, 10);
    assert_eq!(account.metadata, Some(vec![1, 2, 3]));
    assert!(account.validate().is_ok());
}

#[test]
fn increment_nonce_advances_monotonically() {
    let mut account = Account::new(sample_capability());

    account.increment_nonce().expect("nonce increment must succeed");
    account.increment_nonce().expect("nonce increment must succeed");

    assert_eq!(account.nonce(), 2);
}

#[test]
fn increment_nonce_rejects_overflow() {
    let mut account = Account::new(sample_capability());
    account.nonce = u64::MAX;

    let result = account.increment_nonce();
    assert_eq!(result, Err(AccountError::NonceOverflow));
}

#[test]
fn add_energy_rejects_overflow() {
    let mut account = Account::new(sample_capability());
    account.energy = u64::MAX;

    let result = account.add_energy(1);
    assert_eq!(result, Err(AccountError::EnergyOverflow));
}

#[test]
fn consume_energy_rejects_underflow() {
    let mut account = Account::new(sample_capability());

    let result = account.consume_energy(1);
    assert_eq!(result, Err(AccountError::EnergyUnderflow));
}

#[test]
fn consume_energy_uses_checked_subtraction() {
    let mut account = Account::with_energy(sample_capability(), 100);

    account.consume_energy(40).expect("energy consumption must succeed");

    assert_eq!(account.energy(), 60);
}

#[test]
fn set_metadata_rejects_oversized_input() {
    let mut account = Account::new(sample_capability());

    let result = account.set_metadata(vec![0u8; MAX_ACCOUNT_METADATA_BYTES + 1]);
    assert_eq!(
        result,
        Err(AccountError::MetadataTooLarge {
            size: MAX_ACCOUNT_METADATA_BYTES + 1,
            max: MAX_ACCOUNT_METADATA_BYTES
        })
    );
}

#[test]
fn replace_metadata_accepts_none_and_some() {
    let mut account = Account::new(sample_capability());

    account
        .replace_metadata(Some(vec![1, 2, 3]))
        .expect("metadata set must succeed");
    assert!(account.has_metadata());
    assert_eq!(account.metadata_len(), 3);

    account
        .replace_metadata(None)
        .expect("metadata clear must succeed");
    assert!(!account.has_metadata());
    assert_eq!(account.metadata_len(), 0);
}

#[test]
fn validate_rejects_oversized_metadata_on_direct_state_mutation() {
    let mut account = Account::new(sample_capability());
    account.metadata = Some(vec![0u8; MAX_ACCOUNT_METADATA_BYTES + 1]);

    let result = account.validate();
    assert_eq!(
        result,
        Err(AccountError::MetadataTooLarge {
            size: MAX_ACCOUNT_METADATA_BYTES + 1,
            max: MAX_ACCOUNT_METADATA_BYTES
        })
    );
}

#[test]
fn can_afford_energy_matches_balance() {
    let account = Account::with_energy(sample_capability(), 50);

    assert!(account.can_afford_energy(50));
    assert!(account.can_afford_energy(49));
    assert!(!account.can_afford_energy(51));
}

#[test]
fn clear_metadata_removes_existing_value() {
    let mut account =
        Account::with_metadata(sample_capability(), 0, vec![7, 8]).expect("valid account");

    assert!(account.has_metadata());
    account.clear_metadata();
    assert!(!account.has_metadata());
}
