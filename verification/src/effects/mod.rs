pub mod common;
pub mod explosions;
pub mod wisp_attack;
