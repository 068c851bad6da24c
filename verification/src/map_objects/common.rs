use vstd::prelude::*;

verus! {

/// Marks an expedition zone as a valid target to send drones to.
#[derive(Clone, Copy, Debug, Default)]
pub struct ExpeditionTargetMarker;

/// A zone that expeditions travel to.
#[derive(Clone, Copy, Debug, Default, PartialEq, Eq, Structural)]
pub struct ExpeditionZone {
    /// Expeditions that have arrived and were not yet processed.
    pub expeditions_arrived: u32,
}

} // verus!
