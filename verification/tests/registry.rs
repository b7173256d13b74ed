use nizaam_core::control_plane::registration::EngineRegistration;
use nizaam_core::control_plane::registry::{EngineRegistry, RegistryError};
use nizaam_core::identity::{EngineId, EngineInstanceId};

fn engine_id(value: &str) -> EngineId {
    EngineId::new(value).expect("valid engine id")
}

fn instance_id(value: &str) -> EngineInstanceId {
    EngineInstanceId::new(value).expect("valid instance id")
}

fn registration(engine: &str, instance: &str) -> EngineRegistration {
    EngineRegistration::new(engine_id(engine), instance_id(instance))
}

#[test]
fn new_registry_is_empty() {
    let mut registry = EngineRegistry::new();

    assert!(registry.is_empty());
    assert_eq!(registry.len(), 0);
    assert!(registry.records().is_empty());
}

#[test]
fn registry_default_matches_new() {
    let mut first = EngineRegistry::new();
    let second = EngineRegistry::default();

    assert_eq!(first.records(), second.records());
}

#[test]
fn register_adds_concrete_instance() {
    let mut registry = EngineRegistry::new();

    registry
        .register(registration("quran", "quran-01"))
        .expect("registration succeeds");

    assert_eq!(registry.len(), 1);
    assert!(registry.contains(&instance_id("quran-01")));

    let record = registry
        .get(&instance_id("quran-01"))
        .expect("registered instance");

    assert_eq!(record.engine_id(), &engine_id("quran"));
    assert_eq!(record.engine_instance_id(), &instance_id("quran-01"));
}

#[test]
fn multiple_instances_can_belong_to_one_engine() {
    let mut registry = EngineRegistry::new();

    registry
        .register(registration("quran", "quran-01"))
        .expect("first registration");

    registry
        .register(registration("quran", "quran-02"))
        .expect("second registration");

    registry
        .register(registration("quran", "quran-03"))
        .expect("third registration");

    let instances = registry
        .instances_for_engine(&engine_id("quran"))
        .into_iter()
        .map(|record| record.engine_instance_id().as_str().to_owned())
        .collect::<Vec<_>>();

    assert_eq!(instances, vec!["quran-01", "quran-02", "quran-03"]);
}

#[test]
fn duplicate_registration_is_rejected_without_mutating_state() {
    let mut registry = EngineRegistry::new();

    registry
        .register(registration("quran", "quran-01"))
        .expect("initial registration");

    let result = registry.register(registration("quran", "quran-01"));

    assert_eq!(
        result,
        Err(RegistryError::AlreadyRegistered(instance_id("quran-01")))
    );

    assert_eq!(registry.len(), 1);
}

#[test]
fn instance_cannot_change_logical_engine_identity() {
    let mut registry = EngineRegistry::new();

    registry
        .register(registration("quran", "shared-instance"))
        .expect("initial registration");

    let result = registry.register(registration("hadith", "shared-instance"));

    assert_eq!(
        result,
        Err(RegistryError::EngineIdentityMismatch {
            instance_id: instance_id("shared-instance"),
            registered_engine_id: engine_id("quran"),
            requested_engine_id: engine_id("hadith"),
        })
    );

    assert_eq!(
        registry
            .get(&instance_id("shared-instance"))
            .expect("existing record")
            .engine_id(),
        &engine_id("quran")
    );
}

#[test]
fn update_replaces_existing_registration() {
    let mut registry = EngineRegistry::new();

    registry
        .register(registration("quran", "quran-01"))
        .expect("initial registration");

    let updated = registration("quran", "quran-01");

    registry.update(updated).expect("update succeeds");

    let record = registry
        .get(&instance_id("quran-01"))
        .expect("updated record");

    assert_eq!(record.engine_id(), &engine_id("quran"));
}

#[test]
fn update_rejects_unknown_instance() {
    let mut registry = EngineRegistry::new();

    let result = registry.update(registration("quran", "quran-01"));

    assert_eq!(
        result,
        Err(RegistryError::NotFound(instance_id("quran-01")))
    );
}

#[test]
fn update_rejects_logical_engine_identity_change() {
    let mut registry = EngineRegistry::new();

    registry
        .register(registration("quran", "quran-01"))
        .expect("initial registration");

    let result = registry.update(registration("hadith", "quran-01"));

    assert_eq!(
        result,
        Err(RegistryError::EngineIdentityMismatch {
            instance_id: instance_id("quran-01"),
            registered_engine_id: engine_id("quran"),
            requested_engine_id: engine_id("hadith"),
        })
    );

    assert_eq!(
        registry
            .get(&instance_id("quran-01"))
            .expect("existing record")
            .engine_id(),
        &engine_id("quran")
    );
}

#[test]
fn unregister_removes_and_returns_record() {
    let mut registry = EngineRegistry::new();

    registry
        .register(registration("quran", "quran-01"))
        .expect("registration succeeds");

    let removed = registry
        .unregister(&instance_id("quran-01"))
        .expect("unregister succeeds");

    assert_eq!(removed.engine_id(), &engine_id("quran"));
    assert!(!registry.contains(&instance_id("quran-01")));
    assert!(registry.is_empty());
}

#[test]
fn unregister_unknown_instance_is_rejected() {
    let mut registry = EngineRegistry::new();

    let result = registry.unregister(&instance_id("missing"));

    assert_eq!(result, Err(RegistryError::NotFound(instance_id("missing"))));
}

#[test]
fn records_are_returned_in_instance_id_order() {
    let mut registry = EngineRegistry::new();

    registry
        .register(registration("quran", "quran-03"))
        .expect("registration");

    registry
        .register(registration("quran", "quran-01"))
        .expect("registration");

    registry
        .register(registration("quran", "quran-02"))
        .expect("registration");

    let instances = registry
        .records()
        .into_iter()
        .map(|record| record.engine_instance_id().as_str().to_owned())
        .collect::<Vec<_>>();

    assert_eq!(instances, vec!["quran-01", "quran-02", "quran-03"]);
}

#[test]
fn records_preserve_complete_registration() {
    let mut registry = EngineRegistry::new();
    let registration = registration("quran", "quran-01");

    registry
        .register(registration.clone())
        .expect("registration succeeds");

    assert_eq!(
        registry
            .get(&instance_id("quran-01"))
            .expect("registered record")
            .registration(),
        &registration
    );
}

#[test]
fn unregistering_one_instance_does_not_affect_other_instances() {
    let mut registry = EngineRegistry::new();

    registry
        .register(registration("quran", "quran-01"))
        .expect("first registration");

    registry
        .register(registration("quran", "quran-02"))
        .expect("second registration");

    registry
        .unregister(&instance_id("quran-01"))
        .expect("unregister succeeds");

    assert!(!registry.contains(&instance_id("quran-01")));
    assert!(registry.contains(&instance_id("quran-02")));
    assert_eq!(registry.len(), 1);
}


