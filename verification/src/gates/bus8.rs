//! Eight-bit helper gates.

use vstd::prelude::*;

use crate::gates::bit;
use crate::primitive::Bit;

verus! {

/// An eight-bit bus; index 0 is the most significant bit.
pub type Bus8 = [Bit; 8];

/// OR of all eight bits.
pub fn or8way(x: Bus8) -> (r: Bit)
    ensures
        r.as_bool() == exists|i: int| 0 <= i < 8 && x[i].as_bool(),
{
    let r = bit::or(
        bit::or(bit::or(x[0], x[1]), bit::or(x[2], x[3])),
        bit::or(bit::or(x[4], x[5]), bit::or(x[6], x[7])),
    );
    proof {
        if r.as_bool() {
            assert(exists|i: int| 0 <= i < 8 && x[i].as_bool());
        } else {
            assert(forall|i: int| 0 <= i < 8 ==> !x[i].as_bool()) by {
                assert(!x[0].as_bool());
                assert(!x[1].as_bool());
                assert(!x[2].as_bool());
                assert(!x[3].as_bool());
                assert(!x[4].as_bool());
                assert(!x[5].as_bool());
                assert(!x[6].as_bool());
                assert(!x[7].as_bool());
            }
        }
    }
    r
}

} // verus!
