pub mod action;
pub mod bridge;
pub mod display;
pub mod host;
pub mod hub;
pub mod l2;
pub mod pc;
pub mod ping;
pub mod router;
pub mod switch;
