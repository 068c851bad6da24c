pub mod emissions;
pub mod energy_supply;
