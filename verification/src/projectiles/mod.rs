pub mod cannonball;
pub mod laser_dart;
pub mod rocket;
