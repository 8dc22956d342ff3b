//! The numbers that the library knows by their bit patterns.

use vstd::prelude::*;

verus! {

/// Zero: the pattern of all bits clear.
pub const ZERO: u64 = 0;

/// One: sign 0, exponent 1023, fraction 0.
pub const ONE: u64 = 0x3FF0_0000_0000_0000;

} // verus!
