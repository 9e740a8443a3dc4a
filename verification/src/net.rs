pub mod bytes;
pub mod checksum;
pub mod ethernet;
pub mod arp;
pub mod ipv4;
pub mod icmp;
