pub mod almanach;
pub mod objectives;
pub mod resources;
pub mod stats;
