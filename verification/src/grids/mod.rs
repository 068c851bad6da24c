pub mod base;
pub mod base_grid;
pub mod common;
pub mod emissions;
pub mod energy_supply;
pub mod obstacles;
pub mod visited;
pub mod wisps;
