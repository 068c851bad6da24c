use vstd::prelude::*;
use crate::grids::common::GridCoords;

verus! {

/// Marks an explosion effect.
#[derive(Clone, Copy, Debug, Default)]
pub struct Explosion;

/// Request to show an explosion on a cell.
#[derive(Clone, Copy, Debug, PartialEq, Eq, Structural)]
pub struct BuilderExplosion(pub GridCoords);

} // verus!
