use vstd::prelude::*;
use crate::common::Entity;

verus! {

/// Tells that a building was destroyed.
#[derive(Clone, Copy, Debug, PartialEq, Eq, Structural)]
pub struct BuildingDestroyedEvent(pub Entity);

} // verus!
