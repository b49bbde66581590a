pub mod color;
pub mod config;
pub mod led;
pub mod pulse;
