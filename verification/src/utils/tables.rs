pub mod arp_table;
pub mod mac_table;
pub mod routing_table;
