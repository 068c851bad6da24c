use vstd::prelude::*;
use crate::common::Entity;

verus! {

/// Marks a rocket.
#[derive(Clone, Copy, Debug, Default)]
pub struct Rocket;

/// Marks the exhaust flame of a rocket.
#[derive(Clone, Copy, Debug, Default)]
pub struct RocketExhaust;

/// The wisp a rocket follows.
#[derive(Clone, Copy, Debug, PartialEq, Eq, Structural)]
pub struct RocketTarget(pub Entity);

/// What a rocket keeps when the game is saved, besides its position and heading.
#[derive(Clone, Copy, Debug, PartialEq, Eq, Structural)]
pub struct RocketSaveData {
    pub entity: Entity,
}

} // verus!
