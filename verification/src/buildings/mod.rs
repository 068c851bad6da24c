pub mod common;
pub mod common_systems;
pub mod energy_relay;
pub mod common_components;
pub mod info_panel;
pub mod mining_complex;
pub mod tower_emitter;
