//! Routing-facing operational observations for the Control Plane.
//!
//! The store keeps the latest observation of each concrete engine instance,
//! keyed by `EngineInstanceId`. Every successful update or removal advances
//! the store version by exactly one; a failed one changes nothing.

use vstd::prelude::*;
use crate::health::{HealthReport, LivenessReport, ReadinessReport};
use crate::identity::{EngineId, EngineInstanceId};
use crate::keyed_table::{ascending, Keyed, KeyedTable};
use crate::observability::{Diagnostic, DiagnosticView};
use crate::runtime::LifecycleState;
use crate::seq_facts::{lemma_filter_take_step, lemma_take_full};

verus! {

/// Errors produced while creating or mutating Control Plane observations.
#[derive(Clone, Debug, PartialEq, Eq)]
pub enum ObservationError {
    /// The health report belongs to a different logical engine.
    EngineIdentityMismatch { engine_id: EngineId, report_engine_id: EngineId },
    /// An update attempted to move an instance to another logical engine.
    StoredEngineIdentityMismatch {
        instance_id: EngineInstanceId,
        stored_engine_id: EngineId,
        observed_engine_id: EngineId,
    },
    /// No observation exists for the requested concrete engine instance.
    NotFound(EngineInstanceId),
}

/// The human-readable description of an observation error.
pub open spec fn observation_error_text(e: ObservationError) -> Seq<char> {
    match e {
        ObservationError::EngineIdentityMismatch { engine_id, report_engine_id } =>
            "observation engine identity does not match health report: expected "@ + engine_id@
            + ", got "@ + report_engine_id@,
        ObservationError::StoredEngineIdentityMismatch {
            instance_id,
            stored_engine_id,
            observed_engine_id,
        } => "engine instance "@ + instance_id@ + " is associated with engine "@ + stored_engine_id@
            + ", but observation specifies engine "@ + observed_engine_id@,
        ObservationError::NotFound(instance_id) => "no observation exists for engine instance "@
            + instance_id@,
    }
}

impl ObservationError {
    /// Human-readable description of the error.
    pub fn to_string(&self) -> (r: String)
        ensures
            r@ == observation_error_text(*self),
    {
        match self {
            ObservationError::EngineIdentityMismatch { engine_id, report_engine_id } => {
                let text = "observation engine identity does not match health report: expected ".to_string();
                let text = text.concat(engine_id.as_str());
                let text = text.concat(", got ");
                text.concat(report_engine_id.as_str())
            },
            ObservationError::StoredEngineIdentityMismatch {
                instance_id,
                stored_engine_id,
                observed_engine_id,
            } => {
                let text = "engine instance ".to_string();
                let text = text.concat(instance_id.as_str());
                let text = text.concat(" is associated with engine ");
                let text = text.concat(stored_engine_id.as_str());
                let text = text.concat(", but observation specifies engine ");
                text.concat(observed_engine_id.as_str())
            },
            ObservationError::NotFound(instance_id) => {
                let text = "no observation exists for engine instance ".to_string();
                text.concat(instance_id.as_str())
            },
        }
    }
}

/// Result type used by the Control Plane observation store.
pub type ObservationResult<T> = Result<T, ObservationError>;

/// Abstract value of an observation.
pub struct ObservationView {
    pub engine_id: Seq<char>,
    pub engine_instance_id: Seq<char>,
    pub health_engine_id: Seq<char>,
    pub lifecycle: LifecycleState,
    pub liveness: LivenessReport,
    pub readiness: ReadinessReport,
    pub observed_at: u64,
    pub diagnostics: Seq<DiagnosticView>,
}

/// The abstract values of a list of diagnostics.
pub open spec fn diagnostic_views(d: Seq<Diagnostic>) -> Seq<DiagnosticView> {
    d.map_values(|x: Diagnostic| x@)
}

/// One immutable routing-facing observation for a concrete engine instance.
#[derive(Debug, PartialEq)]
pub struct EngineObservation {
    engine_id: EngineId,
    engine_instance_id: EngineInstanceId,
    health: HealthReport,
    diagnostics: Vec<Diagnostic>,
}

impl View for EngineObservation {
    type V = ObservationView;

    closed spec fn view(&self) -> ObservationView {
        ObservationView {
            engine_id: self.engine_id@,
            engine_instance_id: self.engine_instance_id@,
            health_engine_id: self.health.engine_id@,
            lifecycle: self.health.lifecycle,
            liveness: self.health.liveness,
            readiness: self.health.readiness,
            observed_at: self.health.observed_at,
            diagnostics: diagnostic_views(self.diagnostics@),
        }
    }
}

impl Clone for EngineObservation {
    fn clone(&self) -> (r: Self)
        ensures
            r@ == self@,
    {
        let r = EngineObservation {
            engine_id: self.engine_id.clone(),
            engine_instance_id: self.engine_instance_id.clone(),
            health: self.health.clone(),
            diagnostics: self.diagnostics.clone(),
        };
        assert(diagnostic_views(r.diagnostics@) =~= diagnostic_views(self.diagnostics@));
        r
    }
}

impl Keyed for EngineObservation {
    open spec fn key_view(v: ObservationView) -> Seq<char> {
        v.engine_instance_id
    }

    fn key(&self) -> (r: &EngineInstanceId) {
        &self.engine_instance_id
    }

    fn copy_of(&self) -> (r: Self) {
        self.clone()
    }
}

impl EngineObservation {
    /// Creates an observation; the health report must describe the same
    /// logical engine.
    pub fn new(engine_id: EngineId, engine_instance_id: EngineInstanceId, health: HealthReport) -> (r:
        ObservationResult<EngineObservation>)
        ensures
            r is Ok <==> health.engine_id@ == engine_id@,
            r matches Ok(o) ==> o@ == (ObservationView {
                engine_id: engine_id@,
                engine_instance_id: engine_instance_id@,
                health_engine_id: health.engine_id@,
                lifecycle: health.lifecycle,
                liveness: health.liveness,
                readiness: health.readiness,
                observed_at: health.observed_at,
                diagnostics: Seq::empty(),
            }),
            r matches Err(e) ==> (e matches ObservationError::EngineIdentityMismatch {
                engine_id: a,
                report_engine_id: b,
            } && a@ == engine_id@ && b@ == health.engine_id@),
    {
        if !health.engine_id().same_as(&engine_id) {
            return Err(
                ObservationError::EngineIdentityMismatch {
                    engine_id,
                    report_engine_id: health.engine_id().clone(),
                },
            );
        }
        let r = EngineObservation { engine_id, engine_instance_id, health, diagnostics: Vec::new() };
        assert(diagnostic_views(r.diagnostics@) =~= Seq::<DiagnosticView>::empty());
        Ok(r)
    }

    /// Adds one diagnostic associated with this observation.
    pub fn with_diagnostic(self, diagnostic: Diagnostic) -> (r: EngineObservation)
        ensures
            r@ == (ObservationView { diagnostics: self@.diagnostics.push(diagnostic@), ..self@ }),
    {
        let mut observation = self;
        let ghost before = observation@;
        observation.diagnostics.push(diagnostic);
        assert(diagnostic_views(observation.diagnostics@) =~= before.diagnostics.push(diagnostic@));
        observation
    }

    /// Adds multiple diagnostics associated with this observation, in order.
    pub fn with_diagnostics(self, diagnostics: Vec<Diagnostic>) -> (r: EngineObservation)
        ensures
            r@ == (ObservationView {
                diagnostics: self@.diagnostics + diagnostic_views(diagnostics@),
                ..self@
            }),
    {
        let mut observation = self;
        let ghost before = observation@;
        let mut i: usize = 0;
        while i < diagnostics.len()
            invariant
                i <= diagnostics@.len(),
                observation@ == (ObservationView {
                    diagnostics: before.diagnostics + diagnostic_views(diagnostics@).take(i as int),
                    ..before
                }),
            decreases diagnostics@.len() - i,
        {
            let d = diagnostics[i].clone();
            let ghost mid = observation@;
            observation.diagnostics.push(d);
            assert(diagnostic_views(observation.diagnostics@) =~= mid.diagnostics.push(d@));
            assert(diagnostic_views(diagnostics@).take(i + 1) =~= diagnostic_views(diagnostics@).take(
                i as int,
            ).push(d@));
            assert(before.diagnostics + diagnostic_views(diagnostics@).take(i + 1) =~= (
            before.diagnostics + diagnostic_views(diagnostics@).take(i as int)).push(d@));
            i = i + 1;
        }
        assert(diagnostic_views(diagnostics@).take(diagnostics@.len() as int) =~= diagnostic_views(
            diagnostics@,
        ));
        observation
    }

    /// Returns the logical engine identity.
    pub fn engine_id(&self) -> (r: &EngineId)
        ensures
            r@ == self@.engine_id,
    {
        &self.engine_id
    }

    /// Returns the concrete engine instance identity.
    pub fn engine_instance_id(&self) -> (r: &EngineInstanceId)
        ensures
            r@ == self@.engine_instance_id,
    {
        &self.engine_instance_id
    }

    /// Returns the health report carried by this observation.
    pub fn health(&self) -> (r: &HealthReport)
        ensures
            r.engine_id@ == self@.health_engine_id,
            r.lifecycle == self@.lifecycle,
            r.liveness == self@.liveness,
            r.readiness == self@.readiness,
            r.observed_at == self@.observed_at,
    {
        &self.health
    }

    /// Returns when the aggregate health observation was taken, in
    /// milliseconds since the Unix epoch.
    pub fn observed_at(&self) -> (r: u64)
        ensures
            r == self@.observed_at,
    {
        self.health.observed_at
    }

    /// Returns diagnostics associated with this observation.
    pub fn diagnostics(&self) -> (r: &[Diagnostic])
        ensures
            diagnostic_views(r@) == self@.diagnostics,
    {
        self.diagnostics.as_slice()
    }
}

/// Abstract value of the observation store and of its snapshots.
pub struct ObservationsView {
    pub version: u64,
    /// Observations keyed by instance identity.
    pub observations: Map<Seq<char>, ObservationView>,
    /// Observations in ascending instance-identity order.
    pub ordered: Seq<ObservationView>,
}

/// The abstract values of a list of borrowed observations.
pub open spec fn observation_views(r: Seq<&EngineObservation>) -> Seq<ObservationView> {
    r.map_values(|x: &EngineObservation| x@)
}

/// The abstract values of a slice of observations.
pub open spec fn owned_observation_views(r: Seq<EngineObservation>) -> Seq<ObservationView> {
    r.map_values(|x: EngineObservation| x@)
}

/// Whether an observation belongs to one logical engine.
pub open spec fn observed_engine(engine_id: Seq<char>) -> spec_fn(ObservationView) -> bool {
    |o: ObservationView| o.engine_id == engine_id
}

/// Whether a keyed observation map stores each observation under its own
/// instance identity.
pub open spec fn observations_keyed(m: Map<Seq<char>, ObservationView>) -> bool {
    forall|k: Seq<char>| #[trigger] m.dom().contains(k) ==> m[k].engine_instance_id == k
}

/// The instance identities of an observation sequence, in order.
pub open spec fn observed_instance_ids(s: Seq<ObservationView>) -> Seq<Seq<char>> {
    s.map_values(|o: ObservationView| o.engine_instance_id)
}

/// Immutable point-in-time view of Control Plane observations.
#[derive(Debug, PartialEq)]
pub struct ObservationSnapshot {
    version: u64,
    observations: KeyedTable<EngineObservation>,
}

impl View for ObservationSnapshot {
    type V = ObservationsView;

    closed spec fn view(&self) -> ObservationsView {
        ObservationsView {
            version: self.version,
            observations: self.observations.as_map(),
            ordered: self.observations.records(),
        }
    }
}

impl ObservationSnapshot {
    /// The observations are keyed by their instance identities.
    #[verifier::type_invariant]
    pub closed spec fn inv(&self) -> bool {
        self.observations.wf()
    }

    /// Each observation is stored under its own instance identity.
    pub proof fn lemma_view(&self)
        requires
            self.inv(),
        ensures
            observations_keyed(self@.observations),
            self@.observations.dom().finite(),
            self@.observations.len() == self@.ordered.len(),
    {
        self.observations.lemma_consistent();
    }

    /// Returns the observation-store revision represented by this snapshot.
    pub fn version(&self) -> (r: u64)
        ensures
            r == self@.version,
    {
        self.version
    }

    /// Looks up one concrete engine instance in this snapshot.
    pub fn get(&self, instance_id: &EngineInstanceId) -> (r: Option<&EngineObservation>)
        ensures
            r is Some <==> self@.observations.dom().contains(instance_id@),
            r matches Some(x) ==> x@ == self@.observations[instance_id@],
    {
        proof {
            use_type_invariant(self);
        }
        self.observations.get(instance_id)
    }

    /// Returns whether an observation exists for the instance.
    pub fn contains(&self, instance_id: &EngineInstanceId) -> (r: bool)
        ensures
            r == self@.observations.dom().contains(instance_id@),
    {
        self.get(instance_id).is_some()
    }

    /// Returns the number of observed engine instances in this snapshot.
    pub fn len(&self) -> (r: usize)
        ensures
            r == self@.observations.len(),
    {
        proof {
            use_type_invariant(self);
        }
        self.observations.len()
    }

    /// Returns whether this snapshot contains no observations.
    pub fn is_empty(&self) -> (r: bool)
        ensures
            r == (self@.observations.len() == 0),
    {
        self.len() == 0
    }

    /// All observations in ascending `EngineInstanceId` order.
    pub fn observations(&self) -> (r: &[EngineObservation])
        ensures
            owned_observation_views(r@) == self@.ordered,
            ascending(observed_instance_ids(self@.ordered)),
    {
        proof {
            use_type_invariant(self);
            self.observations.lemma_ascending();
            assert(observed_instance_ids(self@.ordered) =~= self.observations.keys());
        }
        self.observations.entries()
    }

    /// Observations of one logical engine, in ascending `EngineInstanceId`
    /// order.
    pub fn instances_for_engine(&self, engine_id: &EngineId) -> (r: Vec<&EngineObservation>)
        ensures
            observation_views(r@) == self@.ordered.filter(observed_engine(engine_id@)),
    {
        let all = self.observations.entries();
        let ghost vs = self@.ordered;
        let ghost p = observed_engine(engine_id@);
        let mut r: Vec<&EngineObservation> = Vec::new();
        let mut i: usize = 0;
        while i < all.len()
            invariant
                vs == owned_observation_views(all@),
                p == observed_engine(engine_id@),
                i <= all@.len(),
                observation_views(r@) == vs.take(i as int).filter(p),
            decreases all@.len() - i,
        {
            proof {
                lemma_filter_take_step(vs, p, i as int);
            }
            if all[i].engine_id().same_as(engine_id) {
                r.push(&all[i]);
                assert(observation_views(r@) =~= vs.take(i as int).filter(p).push(vs[i as int]));
            }
            i = i + 1;
        }
        proof {
            lemma_take_full(vs);
        }
        r
    }
}

/// Authoritative in-memory store of the latest Control Plane observations.
#[derive(Debug)]
pub struct Observations {
    version: u64,
    observations: KeyedTable<EngineObservation>,
}

impl View for Observations {
    type V = ObservationsView;

    closed spec fn view(&self) -> ObservationsView {
        ObservationsView {
            version: self.version,
            observations: self.observations.as_map(),
            ordered: self.observations.records(),
        }
    }
}

impl Default for Observations {
    fn default() -> (r: Observations)
        ensures
            r@.version == 0,
            r@.observations == Map::<Seq<char>, ObservationView>::empty(),
            r@.ordered == Seq::<ObservationView>::empty(),
    {
        Observations::new()
    }
}

impl Observations {
    /// The observations are keyed by their instance identities.
    #[verifier::type_invariant]
    pub closed spec fn inv(&self) -> bool {
        self.observations.wf()
    }

    /// Creates an empty observation store at revision zero.
    pub fn new() -> (r: Observations)
        ensures
            r@.version == 0,
            r@.observations == Map::<Seq<char>, ObservationView>::empty(),
            r@.ordered == Seq::<ObservationView>::empty(),
    {
        Observations { version: 0, observations: KeyedTable::new() }
    }

    /// Returns the current local observation-store revision.
    pub fn version(&self) -> (r: u64)
        ensures
            r == self@.version,
    {
        self.version
    }

    /// Inserts or replaces the latest observation of one instance; an
    /// instance keeps the logical engine it was first observed with.
    pub fn update(&mut self, observation: EngineObservation) -> (r: ObservationResult<()>)
        requires
            old(self)@.version < u64::MAX,
        ensures
            ({
                let id = observation@.engine_instance_id;
                let m = old(self)@.observations;
                &&& r is Ok <==> !(m.dom().contains(id) && m[id].engine_id != observation@.engine_id)
                &&& r is Ok ==> final(self)@.version == old(self)@.version + 1
                    && final(self)@.observations == m.insert(id, observation@)
                &&& r matches Err(e) ==> final(self)@ == old(self)@ && (e matches ObservationError::StoredEngineIdentityMismatch {
                    instance_id,
                    stored_engine_id,
                    observed_engine_id,
                } && instance_id@ == id && stored_engine_id@ == m[id].engine_id
                    && observed_engine_id@ == observation@.engine_id)
            }),
    {
        proof {
            use_type_invariant(&*self);
        }
        if let Some(existing) = self.observations.get(observation.engine_instance_id()) {
            if !existing.engine_id().same_as(observation.engine_id()) {
                return Err(
                    ObservationError::StoredEngineIdentityMismatch {
                        instance_id: observation.engine_instance_id().clone(),
                        stored_engine_id: existing.engine_id().clone(),
                        observed_engine_id: observation.engine_id().clone(),
                    },
                );
            }
        }
        let mut observations = KeyedTable::new();
        std::mem::swap(&mut observations, &mut self.observations);
        observations.upsert(observation);
        self.observations = observations;
        self.version = self.version + 1;
        Ok(())
    }

    /// Removes the observation of one concrete engine instance.
    pub fn remove(&mut self, instance_id: &EngineInstanceId) -> (r: ObservationResult<()>)
        requires
            old(self)@.version < u64::MAX,
        ensures
            r is Ok <==> old(self)@.observations.dom().contains(instance_id@),
            r is Ok ==> final(self)@.version == old(self)@.version + 1
                && final(self)@.observations == old(self)@.observations.remove(instance_id@),
            r matches Err(e) ==> final(self)@ == old(self)@ && (e matches ObservationError::NotFound(
                x,
            ) && x@ == instance_id@),
    {
        proof {
            use_type_invariant(&*self);
        }
        if self.observations.find(instance_id).is_none() {
            return Err(ObservationError::NotFound(instance_id.clone()));
        }
        let mut observations = KeyedTable::new();
        std::mem::swap(&mut observations, &mut self.observations);
        let _removed = observations.remove(instance_id);
        self.observations = observations;
        self.version = self.version + 1;
        Ok(())
    }

    /// Looks up the latest observation of one concrete engine instance.
    pub fn get(&self, instance_id: &EngineInstanceId) -> (r: Option<EngineObservation>)
        ensures
            r is Some <==> self@.observations.dom().contains(instance_id@),
            r matches Some(x) ==> x@ == self@.observations[instance_id@],
    {
        proof {
            use_type_invariant(self);
        }
        match self.observations.get(instance_id) {
            Some(x) => Some(x.clone()),
            None => None,
        }
    }

    /// Returns the number of currently stored engine observations.
    pub fn len(&self) -> (r: usize)
        ensures
            r == self@.observations.len(),
    {
        proof {
            use_type_invariant(self);
        }
        self.observations.len()
    }

    /// Returns whether the observation store contains no observations.
    pub fn is_empty(&self) -> (r: bool)
        ensures
            r == (self@.observations.len() == 0),
    {
        self.len() == 0
    }

    /// Returns whether an observation exists for one concrete engine instance.
    pub fn contains(&self, instance_id: &EngineInstanceId) -> (r: bool)
        ensures
            r == self@.observations.dom().contains(instance_id@),
    {
        proof {
            use_type_invariant(self);
        }
        self.observations.get(instance_id).is_some()
    }

    /// Returns an immutable, coherent point-in-time snapshot.
    pub fn snapshot(&self) -> (r: ObservationSnapshot)
        ensures
            r@ == self@,
    {
        proof {
            use_type_invariant(self);
        }
        ObservationSnapshot { version: self.version, observations: self.observations.copy_of() }
    }
}

} // verus!
