//! Revocation list: revocation, lookup, validation and deterministic export.

use aoxcore::identity::revocation::RevocationEntry;
use aoxcore::identity::revocation::RevocationError;
use aoxcore::identity::revocation::RevocationList;
use aoxcore::identity::revocation::RevocationReason;

#[test]
fn revoke_and_query_actor() {
    let mut crl = RevocationList::new();

    let inserted = crl
        .revoke_at("AOXC-VAL-EU-1234", RevocationReason::KeyCompromise, 100)
        .unwrap();

    assert!(inserted);
    assert!(crl.is_revoked("AOXC-VAL-EU-1234"));
    assert_eq!(crl.len(), 1);
}

#[test]
fn duplicate_revoke_returns_false() {
    let mut crl = RevocationList::new();

    let first = crl
        .revoke_at("AOXC-NOD-EU-1", RevocationReason::OperatorAction, 100)
        .unwrap();
    let second = crl
        .revoke_at("AOXC-NOD-EU-1", RevocationReason::OperatorAction, 101)
        .unwrap();

    assert!(first);
    assert!(!second);
    assert_eq!(crl.len(), 1);
    assert_eq!(crl.get("AOXC-NOD-EU-1").unwrap().revoked_at, 100);
}

#[test]
fn revocation_deterministic_export() {
    let mut crl = RevocationList::new();

    crl.revoke_at("AOXC-B", RevocationReason::OperatorAction, 100)
        .unwrap();
    crl.revoke_at("AOXC-A", RevocationReason::OperatorAction, 100)
        .unwrap();

    let list = crl.export_actor_ids();

    assert_eq!(list, vec!["AOXC-A".to_string(), "AOXC-B".to_string()]);
}

#[test]
fn export_entries_is_deterministic() {
    let mut crl = RevocationList::new();

    crl.revoke_at("AOXC-B", RevocationReason::OperatorAction, 200)
        .unwrap();
    crl.revoke_at("AOXC-A", RevocationReason::KeyCompromise, 100)
        .unwrap();

    let entries = crl.export_entries();

    assert_eq!(entries[0].actor_id, "AOXC-A");
    assert_eq!(entries[0].reason, RevocationReason::KeyCompromise);
    assert_eq!(entries[1].actor_id, "AOXC-B");
    assert_eq!(entries[1].reason, RevocationReason::OperatorAction);
}

#[test]
fn revocation_invalid_actor_id_is_rejected() {
    let mut crl = RevocationList::new();

    let error = crl
        .revoke_at("bad actor", RevocationReason::OperatorAction, 100)
        .unwrap_err();

    assert_eq!(error, RevocationError::InvalidActorId);
}

#[test]
fn invalid_reason_is_rejected() {
    let mut crl = RevocationList::new();

    let error = crl
        .revoke_at(
            "AOXC-ACTOR-1",
            RevocationReason::Other("   ".to_string()),
            100,
        )
        .unwrap_err();

    assert_eq!(error, RevocationError::InvalidReason);
}

#[test]
fn invalid_revoked_at_is_rejected() {
    let mut crl = RevocationList::new();

    let error = crl
        .revoke_at("AOXC-ACTOR-2", RevocationReason::OperatorAction, 0)
        .unwrap_err();

    assert_eq!(error, RevocationError::InvalidRevokedAt);
}

#[test]
fn lookup_of_invalid_actor_returns_safe_defaults() {
    let crl = RevocationList::new();

    assert!(!crl.is_revoked(" bad "));
    assert_eq!(crl.get("bad actor"), None);
}

#[test]
fn validate_rejects_corrupted_internal_state() {
    let revoked = vec![(
        "AOXC-ACTOR-4".to_string(),
        RevocationEntry {
            actor_id: "AOXC-ACTOR-4".to_string(),
            reason: RevocationReason::Other(" bad ".to_string()),
            revoked_at: 100,
        },
    )];

    let crl = RevocationList::from_pairs(revoked);

    assert_eq!(crl.validate(), Err(RevocationError::InvalidReason));
}
