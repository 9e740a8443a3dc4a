//! The ARP hardware type values.
use vstd::prelude::*;

verus! {

pub const ETHERNET: u16 = 1;

} // verus!
