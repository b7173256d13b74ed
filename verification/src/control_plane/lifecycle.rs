//! Routing eligibility derived from the Engine Runtime lifecycle.

use vstd::prelude::*;
use crate::runtime::LifecycleState;

verus! {

/// Only a `Serving` engine may receive new normal Control Plane-routed work.
pub fn is_routable(state: LifecycleState) -> (r: bool)
    ensures
        r == (state == LifecycleState::Serving),
{
    match state {
        LifecycleState::Serving => true,
        _ => false,
    }
}

} // verus!
