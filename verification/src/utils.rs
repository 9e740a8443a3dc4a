pub mod addrs;
pub mod clock;
pub mod interfaces;
pub mod tables;
pub mod text;
