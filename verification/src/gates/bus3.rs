//! The three-bit bus used as a bank selector throughout the memory hierarchy.

use vstd::prelude::*;

use crate::gates::bit::make_bit;
use crate::primitive::Bit;

verus! {

/// A three-bit bus; index 0 is the most significant bit.
pub type Bus3 = [Bit; 3];

/// Builds the three-bit bus whose unsigned value is the low three bits of `i`.
pub fn make_bus3(i: i32) -> (r: Bus3)
    ensures
        forall|b: int| 0 <= b < 3 ==> r[b].as_bool() == (i & (1i32 << ((2 - b) as i32)) != 0),
{
    let b0 = make_bit(i & (1i32 << 2i32) != 0);
    let b1 = make_bit(i & (1i32 << 1i32) != 0);
    let b2 = make_bit(i & (1i32 << 0i32) != 0);
    [b0, b1, b2]
}

} // verus!
