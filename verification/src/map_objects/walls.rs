use vstd::prelude::*;
use crate::common::Entity;
use crate::grids::common::{GridCoords, GridImprint};

verus! {

/// The imprint of a wall: a single cell.
pub fn wall_grid_imprint() -> (r: GridImprint)
    ensures
        r == (GridImprint::Rectangle { width: 1, height: 1 }),
{
    GridImprint::Rectangle { width: 1, height: 1 }
}

/// Marks a wall.
#[derive(Clone, Copy, Debug, Default)]
pub struct Wall;

/// Request to place a wall, or the record of a wall being saved.
#[derive(Clone, Copy, Debug, PartialEq, Eq, Structural)]
pub struct BuilderWall {
    pub grid_position: GridCoords,
    /// The wall's entity when saving.
    pub entity: Option<Entity>,
}

impl BuilderWall {
    pub fn new(grid_position: GridCoords) -> (r: Self)
        ensures
            r.grid_position == grid_position,
            r.entity is None,
    {
        BuilderWall { grid_position, entity: None }
    }

    pub fn new_for_saving(grid_position: GridCoords, entity: Entity) -> (r: Self)
        ensures
            r.grid_position == grid_position,
            r.entity == Some(entity),
    {
        BuilderWall { grid_position, entity: Some(entity) }
    }
}

} // verus!
