pub mod common;
pub mod dark_ore;
pub mod quantum_field;
pub mod walls;
