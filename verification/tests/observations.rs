use nizaam_core::control_plane::observations::{EngineObservation, ObservationError, Observations};
use nizaam_core::health::{HealthReport, HealthStatus, LivenessReport, ReadinessReport};
use nizaam_core::identity::{EngineId, EngineInstanceId};
use nizaam_core::observability::{Diagnostic, DiagnosticCondition, DiagnosticKind};
use nizaam_core::runtime::LifecycleState;

fn engine_id(value: &str) -> EngineId {
    EngineId::new(value).unwrap()
}

fn instance_id(value: &str) -> EngineInstanceId {
    EngineInstanceId::new(value).unwrap()
}

fn health_report(engine: &EngineId, lifecycle: LifecycleState) -> HealthReport {
    HealthReport::new(
        engine.clone(),
        lifecycle,
        LivenessReport::healthy(),
        ReadinessReport::from_lifecycle(lifecycle),
    )
}

fn observation(
    engine: &EngineId,
    instance: &EngineInstanceId,
    lifecycle: LifecycleState,
) -> EngineObservation {
    EngineObservation::new(
        engine.clone(),
        instance.clone(),
        health_report(engine, lifecycle),
    )
    .unwrap()
}

#[test]
fn observation_preserves_logical_and_concrete_identity() {
    let engine = engine_id("quran-engine");
    let instance = instance_id("quran-engine-01");
    let observation = observation(&engine, &instance, LifecycleState::Serving);

    assert_eq!(observation.engine_id(), &engine);
    assert_eq!(observation.engine_instance_id(), &instance);
    assert_eq!(observation.health().engine_id(), &engine);
}

#[test]
fn observation_rejects_health_report_for_another_engine() {
    let engine = engine_id("quran-engine");
    let other_engine = engine_id("hadith-engine");
    let instance = instance_id("quran-engine-01");
    let health = health_report(&other_engine, LifecycleState::Serving);

    let result = EngineObservation::new(engine.clone(), instance, health);

    assert_eq!(
        result,
        Err(ObservationError::EngineIdentityMismatch {
            engine_id: engine,
            report_engine_id: other_engine,
        })
    );
}

#[test]
fn store_starts_empty_at_revision_zero() {
    let observations = Observations::new();

    assert_eq!(observations.version(), 0);
    assert!(observations.is_empty());
}

#[test]
fn update_inserts_and_increments_revision() {
    let mut observations = Observations::new();
    let engine = engine_id("quran-engine");
    let instance = instance_id("quran-engine-01");

    observations
        .update(observation(&engine, &instance, LifecycleState::Serving))
        .unwrap();

    assert_eq!(observations.version(), 1);
    assert!(observations.contains(&instance));
    assert_eq!(
        observations.get(&instance).unwrap().health().overall(),
        HealthStatus::Healthy
    );
}

#[test]
fn update_replaces_only_the_same_concrete_instance() {
    let mut observations = Observations::new();
    let engine = engine_id("quran-engine");
    let first = instance_id("quran-engine-01");
    let second = instance_id("quran-engine-02");

    observations
        .update(observation(&engine, &first, LifecycleState::Serving))
        .unwrap();
    observations
        .update(observation(&engine, &second, LifecycleState::Ready))
        .unwrap();
    observations
        .update(observation(&engine, &first, LifecycleState::Ready))
        .unwrap();

    assert_eq!(observations.version(), 3);
    assert_eq!(observations.snapshot().len(), 2);
    assert_eq!(
        observations.get(&first).unwrap().health().lifecycle(),
        LifecycleState::Ready
    );
    assert_eq!(
        observations.get(&second).unwrap().health().lifecycle(),
        LifecycleState::Ready
    );
}

#[test]
fn update_cannot_change_logical_engine_identity_for_an_existing_instance() {
    let mut observations = Observations::new();
    let quran = engine_id("quran-engine");
    let hadith = engine_id("hadith-engine");
    let instance = instance_id("shared-instance");

    observations
        .update(observation(&quran, &instance, LifecycleState::Serving))
        .unwrap();

    let result = observations.update(observation(&hadith, &instance, LifecycleState::Serving));

    assert_eq!(
        result,
        Err(ObservationError::StoredEngineIdentityMismatch {
            instance_id: instance.clone(),
            stored_engine_id: quran.clone(),
            observed_engine_id: hadith.clone(),
        })
    );

    assert_eq!(observations.get(&instance).unwrap().engine_id(), &quran);
    assert_eq!(observations.version(), 1);
}

#[test]
fn snapshot_is_immutable_after_live_store_changes() {
    let mut observations = Observations::new();
    let engine = engine_id("quran-engine");
    let instance = instance_id("quran-engine-01");

    observations
        .update(observation(&engine, &instance, LifecycleState::Serving))
        .unwrap();
    let first_snapshot = observations.snapshot();

    observations
        .update(observation(&engine, &instance, LifecycleState::Ready))
        .unwrap();
    let second_snapshot = observations.snapshot();

    assert_eq!(first_snapshot.version(), 1);
    assert_eq!(second_snapshot.version(), 2);
    assert_eq!(
        first_snapshot.get(&instance).unwrap().health().lifecycle(),
        LifecycleState::Serving
    );
    assert_eq!(
        second_snapshot.get(&instance).unwrap().health().lifecycle(),
        LifecycleState::Ready
    );
}

#[test]
fn multiple_instances_of_one_engine_remain_independent() {
    let mut observations = Observations::new();
    let engine = engine_id("quran-engine");
    let first = instance_id("quran-engine-01");
    let second = instance_id("quran-engine-02");

    observations
        .update(observation(&engine, &first, LifecycleState::Serving))
        .unwrap();
    observations
        .update(observation(&engine, &second, LifecycleState::Ready))
        .unwrap();

    let snapshot = observations.snapshot();
    let instances: Vec<_> = snapshot
        .instances_for_engine(&engine)
        .iter()
        .map(|item| item.engine_instance_id().clone())
        .collect();

    assert_eq!(instances, vec![first, second]);
}

#[test]
fn remove_deletes_one_instance_and_increments_revision() {
    let mut observations = Observations::new();
    let engine = engine_id("quran-engine");
    let instance = instance_id("quran-engine-01");

    observations
        .update(observation(&engine, &instance, LifecycleState::Serving))
        .unwrap();
    observations.remove(&instance).unwrap();

    assert_eq!(observations.version(), 2);
    assert!(!observations.contains(&instance));
    assert_eq!(
        observations.remove(&instance),
        Err(ObservationError::NotFound(instance))
    );
    assert_eq!(observations.version(), 2);
}

#[test]
fn diagnostics_are_associated_without_changing_health_semantics() {
    let engine = engine_id("quran-engine");
    let instance = instance_id("quran-engine-01");
    let diagnostic = Diagnostic::new(
        DiagnosticKind::Runtime,
        DiagnosticCondition::Degraded,
        "runtime condition requires attention",
    )
    .unwrap();

    let observation = observation(&engine, &instance, LifecycleState::Serving)
        .with_diagnostic(diagnostic.clone());

    assert_eq!(observation.diagnostics(), &[diagnostic]);
    assert_eq!(observation.health().overall(), HealthStatus::Healthy);
}

