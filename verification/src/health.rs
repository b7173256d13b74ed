//! Health and readiness observations reported by engines.
//!
//! An engine is healthy when it is alive and ready, degraded when it is
//! alive but not ready, and unhealthy when it is not alive.

use vstd::prelude::*;
use crate::identity::EngineId;
use crate::runtime::LifecycleState;

verus! {

/// Aggregate health of an engine.
#[derive(Clone, Copy, Debug, PartialEq, Eq, Structural)]
pub enum HealthStatus {
    Healthy,
    Degraded,
    Unhealthy,
}

/// Readiness of an engine to receive work.
#[derive(Clone, Copy, Debug, PartialEq, Eq, Structural)]
pub enum ReadinessState {
    Ready,
    NotReady,
    Unknown,
}

/// A readiness observation.
#[derive(Clone, Copy, Debug, PartialEq, Eq, Structural)]
pub struct ReadinessReport {
    pub state: ReadinessState,
}

impl ReadinessReport {
    /// Creates a readiness report in the given state.
    pub fn at(state: ReadinessState) -> (r: ReadinessReport)
        ensures
            r.state == state,
    {
        ReadinessReport { state }
    }

    /// Readiness derived from a lifecycle state: only `Ready` and `Serving`
    /// engines are ready.
    pub fn from_lifecycle(lifecycle: LifecycleState) -> (r: ReadinessReport)
        ensures
            r.state == (if lifecycle == LifecycleState::Ready || lifecycle
                == LifecycleState::Serving {
                ReadinessState::Ready
            } else {
                ReadinessState::NotReady
            }),
    {
        match lifecycle {
            LifecycleState::Ready | LifecycleState::Serving => ReadinessReport {
                state: ReadinessState::Ready,
            },
            _ => ReadinessReport { state: ReadinessState::NotReady },
        }
    }

    /// Returns the readiness state.
    pub fn state(&self) -> (r: ReadinessState)
        ensures
            r == self.state,
    {
        self.state
    }

    /// Whether the engine reported itself ready.
    pub fn is_ready(&self) -> (r: bool)
        ensures
            r == (self.state == ReadinessState::Ready),
    {
        self.state == ReadinessState::Ready
    }
}

/// A liveness observation.
#[derive(Clone, Copy, Debug, PartialEq, Eq, Structural)]
pub struct LivenessReport {
    pub alive: bool,
}

impl LivenessReport {
    /// A live engine.
    pub fn healthy() -> (r: LivenessReport)
        ensures
            r.alive,
    {
        LivenessReport { alive: true }
    }

    /// An engine that failed its liveness check.
    pub fn unhealthy() -> (r: LivenessReport)
        ensures
            !r.alive,
    {
        LivenessReport { alive: false }
    }
}

/// Aggregate health derived from liveness and readiness.
pub open spec fn overall_health(liveness: LivenessReport, readiness: ReadinessReport) -> HealthStatus {
    if !liveness.alive {
        HealthStatus::Unhealthy
    } else if readiness.state == ReadinessState::Ready {
        HealthStatus::Healthy
    } else {
        HealthStatus::Degraded
    }
}

/// The health report of one logical engine.
#[derive(Debug, PartialEq, Eq)]
pub struct HealthReport {
    pub engine_id: EngineId,
    pub lifecycle: LifecycleState,
    pub liveness: LivenessReport,
    pub readiness: ReadinessReport,
    /// When the report was taken, in milliseconds since the Unix epoch.
    pub observed_at: u64,
}

impl Clone for HealthReport {
    fn clone(&self) -> (r: Self)
        ensures
            r.engine_id@ == self.engine_id@,
            r.lifecycle == self.lifecycle,
            r.liveness == self.liveness,
            r.readiness == self.readiness,
            r.observed_at == self.observed_at,
    {
        HealthReport {
            engine_id: self.engine_id.clone(),
            lifecycle: self.lifecycle,
            liveness: self.liveness,
            readiness: self.readiness,
            observed_at: self.observed_at,
        }
    }
}

impl HealthReport {
    /// Creates a health report.
    pub fn new(
        engine_id: EngineId,
        lifecycle: LifecycleState,
        liveness: LivenessReport,
        readiness: ReadinessReport,
    ) -> (r: HealthReport)
        ensures
            r.engine_id@ == engine_id@,
            r.lifecycle == lifecycle,
            r.liveness == liveness,
            r.readiness == readiness,
            r.observed_at == 0,
    {
        HealthReport { engine_id, lifecycle, liveness, readiness, observed_at: 0 }
    }

    /// Records when the report was taken, in milliseconds since the Unix
    /// epoch.
    pub fn with_observed_at(self, observed_at: u64) -> (r: HealthReport)
        ensures
            r.engine_id@ == self.engine_id@,
            r.lifecycle == self.lifecycle,
            r.liveness == self.liveness,
            r.readiness == self.readiness,
            r.observed_at == observed_at,
    {
        HealthReport { observed_at, ..self }
    }

    /// Returns when the report was taken, in milliseconds since the Unix
    /// epoch.
    pub fn observed_at(&self) -> (r: u64)
        ensures
            r == self.observed_at,
    {
        self.observed_at
    }

    /// Returns the engine the report describes.
    pub fn engine_id(&self) -> (r: &EngineId)
        ensures
            r@ == self.engine_id@,
    {
        &self.engine_id
    }

    /// Returns the lifecycle state the report was taken in.
    pub fn lifecycle(&self) -> (r: LifecycleState)
        ensures
            r == self.lifecycle,
    {
        self.lifecycle
    }

    /// Returns the aggregate health.
    pub fn overall(&self) -> (r: HealthStatus)
        ensures
            r == overall_health(self.liveness, self.readiness),
    {
        if !self.liveness.alive {
            HealthStatus::Unhealthy
        } else if self.readiness.is_ready() {
            HealthStatus::Healthy
        } else {
            HealthStatus::Degraded
        }
    }
}

} // verus!
