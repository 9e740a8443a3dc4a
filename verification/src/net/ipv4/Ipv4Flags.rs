//! The IPv4 flag values.
#![allow(non_upper_case_globals)]
use vstd::prelude::*;
use pnet_macros_support::types::u3;

verus! {

pub const DontFragment: u3 = 0b010;

pub const MoreFragments: u3 = 0b001;

} // verus!
