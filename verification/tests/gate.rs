//! Role/module permission gate.

use aoxcore::identity::gate::Gate;

#[test]
fn default_permissions_work() {
    let gate = Gate::new();

    assert!(gate.allow("VAL", "consensus"));
    assert!(gate.allow("NOD", "network"));
    assert!(gate.allow("AOR", "oracle"));
    assert!(gate.allow("GOV", "governance"));
}

#[test]
fn deny_invalid_role() {
    let gate = Gate::new();
    assert!(!gate.allow("HAX", "consensus"));
}

#[test]
fn grant_and_revoke_work() {
    let mut gate = Gate::new();

    gate.grant("VAL", "network");
    assert!(gate.allow("VAL", "network"));

    gate.revoke("VAL", "network");
    assert!(!gate.allow("VAL", "network"));
}

#[test]
fn role_listing_works() {
    let gate = Gate::new();

    let roles = gate.roles();
    assert!(roles.contains(&"VAL".to_string()));
}
