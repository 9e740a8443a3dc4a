//! The EtherType values that the simulator knows.
#![allow(non_upper_case_globals)]
use vstd::prelude::*;

verus! {

pub const Ipv4: u16 = 0x0800;

pub const Arp: u16 = 0x0806;

pub const Ipv6: u16 = 0x86DD;

pub const Vlan: u16 = 0x8100;

} // verus!
