//! The ARP operation values.
use vstd::prelude::*;

verus! {

pub const REQUEST: u16 = 1;

pub const REPLY: u16 = 2;

} // verus!
