//! Actor registry: registration, lookup and deterministic export.

use aoxcore::identity::registry::Registry;

#[test]
fn register_and_lookup_actor() {
    let mut registry = Registry::new();

    registry.register("AOXC-VAL-EU-1234".into(), "validator".into());

    assert_eq!(registry.role("AOXC-VAL-EU-1234"), Some("validator"));
}

#[test]
fn duplicate_registration_is_ignored() {
    let mut registry = Registry::new();

    registry.register("actor1".into(), "node".into());
    registry.register("actor1".into(), "node".into());

    assert_eq!(registry.len(), 1);
}

#[test]
fn registry_deterministic_export() {
    let mut registry = Registry::new();

    registry.register("b".into(), "node".into());
    registry.register("a".into(), "node".into());

    let actors = registry.export_actor_ids();

    assert_eq!(actors, vec!["a".to_string(), "b".to_string()]);
}
