//! Combinational logic: every boolean operator here is composed from NAND
//! alone, over single bits and over 16-bit buses, up to the adder and the ALU.

use vstd::prelude::*;

pub mod bit;
pub mod bus3;
pub mod bus8;
pub mod bus16;
pub mod adder;

use crate::primitive::Pin;

verus! {

// A corner of the library that speaks in `Pin`s rather than `Bit`s; the
// gates behave exactly as their `Bit`-typed counterparts in `bit`.

/// NOT over a pin, from NAND alone.
pub fn not(x: Pin) -> (r: Pin)
    ensures
        r.as_bool() == !x.as_bool(),
{
    x.nand(Pin::Positive)
}

/// AND over pins, from NAND alone.
pub fn and(x: Pin, y: Pin) -> (r: Pin)
    ensures
        r.as_bool() == (x.as_bool() && y.as_bool()),
{
    not(x.nand(y))
}

/// OR over pins, from NAND alone.
pub fn or(x: Pin, y: Pin) -> (r: Pin)
    ensures
        r.as_bool() == (x.as_bool() || y.as_bool()),
{
    not(x).nand(not(y))
}

/// XOR over pins, from NAND alone.
pub fn xor(x: Pin, y: Pin) -> (r: Pin)
    ensures
        r.as_bool() == (x.as_bool() != y.as_bool()),
{
    and(or(x, y), x.nand(y))
}

/// Selects `y` when `sel` is high, else `x`.
pub fn mux(x: Pin, y: Pin, sel: Pin) -> (r: Pin)
    ensures
        r.as_bool() == if sel.as_bool() {
            y.as_bool()
        } else {
            x.as_bool()
        },
{
    or(and(not(sel), x), and(sel, y))
}

/// Routes `x` to the first output when `sel` is low, to the second when it
/// is high; the unselected output is low.
pub fn dmux(x: Pin, sel: Pin) -> (r: (Pin, Pin))
    ensures
        r.0.as_bool() == (x.as_bool() && !sel.as_bool()),
        r.1.as_bool() == (x.as_bool() && sel.as_bool()),
{
    (and(x, not(sel)), and(x, sel))
}

} // verus!
