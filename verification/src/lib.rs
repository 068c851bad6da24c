//! Game logic of a grid-based tower-defense game: grids and their imprints,
//! path finding, resources and payments, objectives and quantum fields.


pub mod common;
pub mod common_components;
pub mod grids;
pub mod buildings;
pub mod pathfinding;
pub mod inventory;
pub mod objectives;
pub mod overlays;
pub mod map_editor;
pub mod map_objects;
pub mod map_loader;
pub mod effects;
pub mod editor;
pub mod projectiles;
