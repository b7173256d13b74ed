//! Engine Runtime lifecycle vocabulary.

use vstd::prelude::*;

verus! {

/// Lifecycle state reported by an Engine Runtime.
#[derive(Clone, Copy, Debug, PartialEq, Eq, Structural)]
pub enum LifecycleState {
    Created,
    Registering,
    Configuring,
    Dependencies,
    Capabilities,
    Starting,
    Ready,
    Serving,
    Draining,
    Stopped,
}

} // verus!
