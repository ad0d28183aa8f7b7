//! World state: account storage by address and the state root.

use aoxcore::block::Capability;
use aoxcore::state::account::Account;
use aoxcore::state::account::AccountError;
use aoxcore::state::account::MAX_ACCOUNT_METADATA_BYTES;
use aoxcore::state::WorldState;
use aoxcore::state::WorldStateError;

fn address(byte: u8) -> [u8; 32] {
    [byte; 32]
}

#[test]
fn insert_then_get_returns_the_account() {
    let mut state = WorldState::new();
    let account = Account::with_energy(Capability::User, 7);

    assert_eq!(state.insert(address(1), account.clone()), Ok(None));
    assert_eq!(state.get(&address(1)), Some(&account));
    assert!(state.contains(&address(1)));
    assert!(!state.contains(&address(2)));
    assert_eq!(state.len(), 1);
}

#[test]
fn insert_replaces_and_returns_previous_account() {
    let mut state = WorldState::new();
    let first = Account::with_energy(Capability::User, 1);
    let second = Account::with_energy(Capability::UserSigned, 2);

    state.insert(address(3), first.clone()).unwrap();
    assert_eq!(state.insert(address(3), second.clone()), Ok(Some(first)));
    assert_eq!(state.get(&address(3)), Some(&second));
    assert_eq!(state.len(), 1);
}

#[test]
fn invalid_account_is_refused_and_state_unchanged() {
    let mut state = WorldState::new();
    let mut bad = Account::new(Capability::User);
    bad.metadata = Some(vec![0u8; MAX_ACCOUNT_METADATA_BYTES + 1]);

    assert_eq!(
        state.insert(address(4), bad),
        Err(WorldStateError::Account(AccountError::MetadataTooLarge {
            size: MAX_ACCOUNT_METADATA_BYTES + 1,
            max: MAX_ACCOUNT_METADATA_BYTES,
        }))
    );
    assert!(state.is_empty());
}

#[test]
fn remove_returns_account_and_forgets_it() {
    let mut state = WorldState::new();
    let account = Account::with_energy(Capability::User, 9);
    state.insert(address(5), account.clone()).unwrap();

    assert_eq!(state.remove(&address(5)), Some(account));
    assert_eq!(state.get(&address(5)), None);
    assert_eq!(state.remove(&address(5)), None);
}

#[test]
fn get_or_create_makes_a_fresh_account_once() {
    let mut state = WorldState::new();

    state.get_or_create(address(6), Capability::User).energy = 40;
    assert_eq!(state.get(&address(6)).unwrap().energy, 40);

    let again = state.get_or_create(address(6), Capability::UserSigned);
    assert_eq!(again.energy, 40);
    assert_eq!(again.capability, Capability::User);
    assert_eq!(state.len(), 1);
}

#[test]
fn get_mut_edits_in_place() {
    let mut state = WorldState::new();
    state.insert(address(7), Account::new(Capability::User)).unwrap();

    state.get_mut(&address(7)).unwrap().nonce = 3;
    assert_eq!(state.get(&address(7)).unwrap().nonce, 3);
    assert!(state.get_mut(&address(8)).is_none());
}

#[test]
fn root_hash_is_order_independent_and_sensitive_to_content() {
    let mut a = WorldState::new();
    a.insert(address(1), Account::with_energy(Capability::User, 1)).unwrap();
    a.insert(address(2), Account::with_energy(Capability::User, 2)).unwrap();

    let mut b = WorldState::new();
    b.insert(address(2), Account::with_energy(Capability::User, 2)).unwrap();
    b.insert(address(1), Account::with_energy(Capability::User, 1)).unwrap();

    assert_eq!(a.root_hash(), b.root_hash());
    assert_eq!(a.try_root_hash(), Ok(a.root_hash()));

    b.get_mut(&address(2)).unwrap().energy = 3;
    assert_ne!(a.root_hash(), b.root_hash());
}

#[test]
fn empty_root_hash_matches_a_new_state() {
    assert_eq!(WorldState::empty_root_hash(), WorldState::new().root_hash());
    assert_eq!(WorldState::new().validate(), Ok(()));
}
