//! Actor passports: validation, validity windows and fingerprints.

use aoxcore::identity::passport::Passport;
use aoxcore::identity::passport::PassportError;
use aoxcore::identity::passport::PassportValidityState;

#[test]
fn expiration_check() {
    let passport = Passport::new(
        "AOXC-ACTOR-1".into(),
        "node".into(),
        "EU".into(),
        "cert".into(),
        100,
        200,
    );

    assert!(passport.is_expired(300));
    assert!(passport.is_expired(200));
    assert!(!passport.is_expired(150));
}

#[test]
fn validity_state_helpers_work() {
    let passport = Passport::new(
        "AOXC-ACTOR-2".into(),
        "node".into(),
        "EU".into(),
        "cert".into(),
        100,
        200,
    );

    assert!(passport.is_not_yet_valid_at(99));
    assert!(passport.is_valid_at(150));
    assert_eq!(
        passport.validity_state_at(99),
        PassportValidityState::NotYetValid
    );
    assert_eq!(
        passport.validity_state_at(150),
        PassportValidityState::Valid
    );
    assert_eq!(
        passport.validity_state_at(200),
        PassportValidityState::Expired
    );
}

#[test]
fn passport_fingerprint_is_stable() {
    let passport = Passport::new(
        "AOXC-ACTOR-3".into(),
        "node".into(),
        "EU".into(),
        "cert".into(),
        100,
        200,
    );

    let a = passport.fingerprint();
    let b = passport.fingerprint();

    assert_eq!(a, b);
    assert_eq!(a.len(), 16);
}

#[test]
fn certificate_fingerprint_is_stable() {
    let passport = Passport::new(
        "AOXC-ACTOR-4".into(),
        "node".into(),
        "EU".into(),
        "cert".into(),
        100,
        200,
    );

    let a = passport.certificate_fingerprint();
    let b = passport.certificate_fingerprint();

    assert_eq!(a, b);
    assert_eq!(a.len(), 16);
}

#[test]
fn passport_invalid_validity_window_is_rejected() {
    let passport = Passport::new(
        "AOXC-ACTOR-5".into(),
        "node".into(),
        "EU".into(),
        "cert".into(),
        100,
        100,
    );

    assert_eq!(
        passport.validate(),
        Err(PassportError::InvalidValidityWindow)
    );
}

#[test]
fn passport_invalid_actor_id_is_rejected() {
    let passport = Passport::new(
        "bad actor".into(),
        "node".into(),
        "EU".into(),
        "cert".into(),
        100,
        200,
    );

    assert_eq!(passport.validate(), Err(PassportError::InvalidActorId));
}

#[test]
fn passport_surrounding_whitespace_is_rejected() {
    let passport = Passport::new(
        " AOXC-ACTOR-6 ".into(),
        "node".into(),
        "EU".into(),
        "cert".into(),
        100,
        200,
    );

    assert_eq!(passport.validate(), Err(PassportError::InvalidActorId));
}

