use vstd::prelude::*;
use crate::common::Entity;

verus! {

/// Marks a laser dart.
#[derive(Clone, Copy, Debug, Default)]
pub struct LaserDart;

/// What a laser dart keeps when the game is saved, besides its position and heading.
#[derive(Clone, Copy, Debug, PartialEq, Eq, Structural)]
pub struct LaserDartSaveData {
    pub entity: Entity,
}

} // verus!
