//! Single-bit gates derived from NAND, and the two- and three-bit
//! demultiplexers used to decode memory-bank addresses.

use vstd::prelude::*;

use crate::gates::bus3::Bus3;
use crate::primitive::Bit;

verus! {

/// A two-bit bus; index 0 is the most significant bit.
pub type Bus2 = [Bit; 2];

/// NOT, from NAND alone.
pub fn not(x: Bit) -> (r: Bit)
    ensures
        r.as_bool() == !x.as_bool(),
{
    x.nand(Bit::Positive)
}

/// AND, from NAND alone.
pub fn and(x: Bit, y: Bit) -> (r: Bit)
    ensures
        r.as_bool() == (x.as_bool() && y.as_bool()),
{
    not(x.nand(y))
}

/// OR, from NAND alone.
pub fn or(x: Bit, y: Bit) -> (r: Bit)
    ensures
        r.as_bool() == (x.as_bool() || y.as_bool()),
{
    not(x).nand(not(y))
}

/// XOR, from NAND alone.
pub fn xor(x: Bit, y: Bit) -> (r: Bit)
    ensures
        r.as_bool() == (x.as_bool() != y.as_bool()),
{
    and(or(x, y), x.nand(y))
}

/// Selects `y` when `sel` is high, else `x`.
pub fn mux(x: Bit, y: Bit, sel: Bit) -> (r: Bit)
    ensures
        r.as_bool() == if sel.as_bool() {
            y.as_bool()
        } else {
            x.as_bool()
        },
{
    or(and(not(sel), x), and(sel, y))
}

/// Routes `x` to output 0 when `sel` is low, to output 1 when `sel` is high;
/// the unselected output is low.
pub fn dmux(x: Bit, sel: Bit) -> (r: [Bit; 2])
    ensures
        r[0].as_bool() == (x.as_bool() && !sel.as_bool()),
        r[1].as_bool() == (x.as_bool() && sel.as_bool()),
{
    [and(x, not(sel)), and(x, sel)]
}

/// The unsigned value of a two-bit selector, most significant bit first.
pub open spec fn bus2_val(sel: Bus2) -> int {
    2 * (if sel[0].as_bool() {
        1int
    } else {
        0int
    }) + (if sel[1].as_bool() {
        1int
    } else {
        0int
    })
}

/// Routes `x` to the output numbered by the selector; the other three are low.
pub fn dmux4way(x: Bit, sel: &Bus2) -> (r: [Bit; 4])
    ensures
        forall|j: int| 0 <= j < 4 ==> r[j].as_bool() == (x.as_bool() && bus2_val(*sel) == j),
{
    let uv = dmux(x, sel[0]);
    let ab = dmux(uv[0], sel[1]);
    let cd = dmux(uv[1], sel[1]);
    [ab[0], ab[1], cd[0], cd[1]]
}

/// The unsigned value of a three-bit selector, most significant bit first.
pub open spec fn bus3_val(sel: Bus3) -> int {
    4 * (if sel[0].as_bool() {
        1int
    } else {
        0int
    }) + 2 * (if sel[1].as_bool() {
        1int
    } else {
        0int
    }) + (if sel[2].as_bool() {
        1int
    } else {
        0int
    })
}

/// Routes `x` to the output numbered by the selector; the other seven are low.
pub fn dmux8way(x: Bit, sel: &Bus3) -> (r: [Bit; 8])
    ensures
        forall|j: int| 0 <= j < 8 ==> r[j].as_bool() == (x.as_bool() && bus3_val(*sel) == j),
{
    let bus2 = [sel[0], sel[1]];
    let q = dmux4way(x, &bus2);
    let ab = dmux(q[0], sel[2]);
    let cd = dmux(q[1], sel[2]);
    let ef = dmux(q[2], sel[2]);
    let gh = dmux(q[3], sel[2]);
    [ab[0], ab[1], cd[0], cd[1], ef[0], ef[1], gh[0], gh[1]]
}

/// Builds the bit that stands for a boolean.
pub fn make_bit(b: bool) -> (r: Bit)
    ensures
        r.as_bool() == b,
{
    if b {
        Bit::Positive
    } else {
        Bit::Negative
    }
}

} // verus!
