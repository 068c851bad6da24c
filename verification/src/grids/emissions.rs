use vstd::prelude::*;
use crate::grids::base::{GridVersion, GridVersionTrait};

verus! {

/// When set, all emissions are recalculated from scratch on the next update.
#[derive(Clone, Copy, Debug, PartialEq, Eq, Structural)]
pub struct EmissionsEnergyRecalculateAll(pub bool);

/// The kinds of emissions spread over the map.
#[derive(Clone, Copy, Debug, PartialEq, Eq, Structural)]
pub enum EmissionsType {
    Energy,
}

/// One version counter per kind of emissions.
#[derive(Clone, Copy, Debug, PartialEq, Eq, Structural)]
pub struct EmissionsGridVersion {
    pub energy: GridVersion,
}

impl GridVersionTrait for EmissionsGridVersion {
    open spec fn spec_default() -> EmissionsGridVersion {
        EmissionsGridVersion { energy: 0 }
    }

    fn default_version() -> (r: EmissionsGridVersion) {
        EmissionsGridVersion { energy: 0 }
    }
}

impl Default for EmissionsGridVersion {
    fn default() -> (r: Self)
        ensures
            r.energy == 0,
    {
        EmissionsGridVersion { energy: 0 }
    }
}

} // verus!
