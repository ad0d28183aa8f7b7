//! The canonical core identity: validation and commitments.

use aoxcore::version::core_identity;
use aoxcore::version::CoreIdentity;
use aoxcore::version::CoreIdentityError;
use aoxcore::version::AOXC_CORE_IDENTITY_SCHEMA_VERSION;

#[test]
fn canonical_core_identity_validates_successfully() {
    let identity = core_identity();

    assert_eq!(identity.schema_version(), AOXC_CORE_IDENTITY_SCHEMA_VERSION);
    assert!(identity.validate().is_ok());
}

#[test]
fn canonical_core_identity_reports_draft_surface() {
    let identity = core_identity();

    assert!(identity.is_draft_surface());
}

#[test]
fn canonical_commitment_is_stable() {
    let identity = core_identity();

    let a = identity.commitment();
    let b = identity.commitment();

    assert_eq!(a, b);
    assert_eq!(a.len(), 32);
}

#[test]
fn canonical_fingerprint_is_stable_and_short() {
    let identity = core_identity();

    let a = identity.fingerprint();
    let b = identity.fingerprint();

    assert_eq!(a, b);
    assert_eq!(a.len(), 16);
}

#[test]
fn invalid_name_is_rejected() {
    let identity = CoreIdentity {
        name: "AOXC Experimental Core",
        ..core_identity()
    };

    let error = identity.validate().expect_err("validation must fail");
    assert_eq!(error, CoreIdentityError::InvalidName);
    assert_eq!(error.code(), "CORE_IDENTITY_INVALID_NAME");
}

#[test]
fn invalid_core_line_is_rejected() {
    let identity = CoreIdentity {
        line: "AOXC-CORE-V2",
        ..core_identity()
    };

    let error = identity.validate().expect_err("validation must fail");
    assert_eq!(error, CoreIdentityError::InvalidLine);
}

#[test]
fn commitment_changes_when_public_surface_changes() {
    let canonical = core_identity();
    let modified = CoreIdentity {
        genesis_authority: "AOXC-GENESIS-AUTH-V2-draft",
        ..canonical
    };

    assert_ne!(canonical.commitment(), modified.commitment());
}

#[test]
fn commitment_hex_is_uppercase_and_full_length() {
    let identity = core_identity();
    let encoded = identity.commitment_hex();

    assert_eq!(encoded, encoded.to_ascii_uppercase());
    assert_eq!(encoded.len(), 64);
}
