pub mod commands;
pub mod devices;
pub mod events;
pub mod net;
pub mod simulation;
pub mod utils;
