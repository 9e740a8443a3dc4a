pub mod mac_addr;
pub mod ip_addr;
