//! The protocol numbers that an IPv4 packet can carry.
#![allow(non_upper_case_globals)]
use vstd::prelude::*;

verus! {

pub const Icmp: u8 = 1;

pub const Tcp: u8 = 6;

pub const Udp: u8 = 17;

} // verus!
