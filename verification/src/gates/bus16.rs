//! Sixteen-bit buses and their elementwise gates, multiplexers and
//! demultiplexers, all composed from NAND.
//!
//! A bus is indexed 0 (most significant) to 15 (least significant); its
//! unsigned value is read off the bits in that order.

use vstd::prelude::*;

use crate::gates::bit;
use crate::gates::bit::{bus2_val, bus3_val, Bus2};
use crate::gates::bus3::Bus3;
use crate::primitive::Bit;

verus! {

/// A sixteen-bit bus; index 0 is the most significant bit.
pub type Bus16 = [Bit; 16];

/// 1 for a high bit, 0 for a low one.
#[verifier::opaque]
pub open spec fn bitv(b: Bit) -> int {
    if b.as_bool() {
        1int
    } else {
        0int
    }
}

/// A bit weighs either 0 or 1, and exactly 1 when it is high.
pub proof fn lemma_bitv_bound(b: Bit)
    ensures
        0 <= bitv(b) <= 1,
        bitv(b) == 1 <==> b.as_bool(),
{
    reveal(bitv);
    reveal(bus16_val);
}

/// The weighted sum of a whole bus lies between 0 and 2^16.
pub proof fn lemma_val_bound(x: Bus16)
    ensures
        0 <= bus16_val(x) < 65536,
{
    reveal(bitv);
    reveal(bus16_val);
}

/// The unsigned value of a bus, most significant bit first: 0 .. 65536.
#[verifier::opaque]
pub open spec fn bus16_val(x: Bus16) -> int {
    32768 * bitv(x[0]) + 16384 * bitv(x[1]) + 8192 * bitv(x[2]) + 4096 * bitv(x[3]) + 2048 * bitv(
        x[4],
    ) + 1024 * bitv(x[5]) + 512 * bitv(x[6]) + 256 * bitv(x[7]) + 128 * bitv(x[8]) + 64 * bitv(
        x[9],
    ) + 32 * bitv(x[10]) + 16 * bitv(x[11]) + 8 * bitv(x[12]) + 4 * bitv(x[13]) + 2 * bitv(x[14])
        + bitv(x[15])
}

/// The signed two's-complement value of a bus: -32768 .. 32767.
pub open spec fn bus16_ival(x: Bus16) -> int {
    if bus16_val(x) < 32768 {
        bus16_val(x)
    } else {
        bus16_val(x) - 65536
    }
}

/// Two buses with the same bits have the same value; stated the useful way
/// round: the value is congruent to the signed reading modulo 2^16.
pub proof fn lemma_ival_congruent(x: Bus16)
    ensures
        0 <= bus16_val(x) < 65536,
        bus16_ival(x) % 65536 == bus16_val(x),
{
    reveal(bitv);
    reveal(bus16_val);
}

/// Elementwise NOT over a bus.
pub fn not(x: &Bus16) -> (r: Bus16)
    ensures
        forall|i: int| 0 <= i < 16 ==> r[i].as_bool() == !x[i].as_bool(),
{
    let mut r: Bus16 = [Bit::Negative; 16];
    let mut i: usize = 0;
    while i < 16
        invariant
            0 <= i <= 16,
            forall|j: int| 0 <= j < i ==> r[j].as_bool() == !x[j].as_bool(),
        decreases 16 - i,
    {
        r[i] = bit::not(x[i]);
        i = i + 1;
    }
    r
}

/// Elementwise AND over two buses.
pub fn and(x: &Bus16, y: &Bus16) -> (r: Bus16)
    ensures
        forall|i: int| 0 <= i < 16 ==> r[i].as_bool() == (x[i].as_bool() && y[i].as_bool()),
{
    let mut r: Bus16 = [Bit::Negative; 16];
    let mut i: usize = 0;
    while i < 16
        invariant
            0 <= i <= 16,
            forall|j: int| 0 <= j < i ==> r[j].as_bool() == (x[j].as_bool() && y[j].as_bool()),
        decreases 16 - i,
    {
        r[i] = bit::and(x[i], y[i]);
        i = i + 1;
    }
    r
}

/// Elementwise OR over two buses.
pub fn or(x: &Bus16, y: &Bus16) -> (r: Bus16)
    ensures
        forall|i: int| 0 <= i < 16 ==> r[i].as_bool() == (x[i].as_bool() || y[i].as_bool()),
{
    let mut r: Bus16 = [Bit::Negative; 16];
    let mut i: usize = 0;
    while i < 16
        invariant
            0 <= i <= 16,
            forall|j: int| 0 <= j < i ==> r[j].as_bool() == (x[j].as_bool() || y[j].as_bool()),
        decreases 16 - i,
    {
        r[i] = bit::or(x[i], y[i]);
        i = i + 1;
    }
    r
}

/// A bus whose sixteen bits all carry the one given bit.
pub fn fill(x: Bit) -> (r: Bus16)
    ensures
        forall|i: int| 0 <= i < 16 ==> r[i].as_bool() == x.as_bool(),
        bus16_val(r) == if x.as_bool() {
            65535int
        } else {
            0int
        },
{
    let r_out = [x, x, x, x, x, x, x, x, x, x, x, x, x, x, x, x];
    proof {
        reveal(bitv);
        reveal(bus16_val);
    }
    r_out
}

/// Selects bus `y` when `sel` is high, else bus `x`, elementwise.
pub fn mux(x: &Bus16, y: &Bus16, sel: Bit) -> (r: Bus16)
    ensures
        forall|i: int|
            0 <= i < 16 ==> r[i].as_bool() == if sel.as_bool() {
                y[i].as_bool()
            } else {
                x[i].as_bool()
            },
{
    let mut r: Bus16 = [Bit::Negative; 16];
    let mut i: usize = 0;
    while i < 16
        invariant
            0 <= i <= 16,
            forall|j: int|
                0 <= j < i ==> r[j].as_bool() == if sel.as_bool() {
                    y[j].as_bool()
                } else {
                    x[j].as_bool()
                },
        decreases 16 - i,
    {
        r[i] = bit::mux(x[i], y[i], sel);
        i = i + 1;
    }
    r
}

/// Selects one of four buses by a two-bit selector, most significant bit first.
pub fn mux4way16(a: &Bus16, b: &Bus16, c: &Bus16, d: &Bus16, sel: &Bus2) -> (r: Bus16)
    ensures
        forall|i: int|
            0 <= i < 16 ==> r[i].as_bool() == if bus2_val(*sel) == 0 {
                a[i].as_bool()
            } else if bus2_val(*sel) == 1 {
                b[i].as_bool()
            } else if bus2_val(*sel) == 2 {
                c[i].as_bool()
            } else {
                d[i].as_bool()
            },
{
    let s = mux(a, b, sel[1]);
    let t = mux(c, d, sel[1]);
    mux(&s, &t, sel[0])
}

/// Selects one of eight buses by a three-bit selector, most significant bit
/// first; this order matches the bank addressing of the memory hierarchy.
pub fn mux8way16(
    a: &Bus16,
    b: &Bus16,
    c: &Bus16,
    d: &Bus16,
    e: &Bus16,
    f: &Bus16,
    g: &Bus16,
    h: &Bus16,
    sel: &Bus3,
) -> (r: Bus16)
    ensures
        forall|i: int|
            0 <= i < 16 ==> r[i].as_bool() == if bus3_val(*sel) == 0 {
                a[i].as_bool()
            } else if bus3_val(*sel) == 1 {
                b[i].as_bool()
            } else if bus3_val(*sel) == 2 {
                c[i].as_bool()
            } else if bus3_val(*sel) == 3 {
                d[i].as_bool()
            } else if bus3_val(*sel) == 4 {
                e[i].as_bool()
            } else if bus3_val(*sel) == 5 {
                f[i].as_bool()
            } else if bus3_val(*sel) == 6 {
                g[i].as_bool()
            } else {
                h[i].as_bool()
            },
{
    let bus2 = [sel[1], sel[2]];
    let s = mux4way16(a, b, c, d, &bus2);
    let t = mux4way16(e, f, g, h, &bus2);
    mux(&s, &t, sel[0])
}

/// Holds when `out` carries `x` gated by `on`: each bit of `out` is the
/// matching bit of `x` when `on` holds, and low otherwise.
pub open spec fn routed(out: Bus16, x: Bus16, on: bool) -> bool {
    forall|i: int| 0 <= i < 16 ==> out[i].as_bool() == (x[i].as_bool() && on)
}

/// Routing composes: a bus gated by `c1` and then by `c2` is the original
/// gated by both.
pub proof fn lemma_routed_trans(out: Bus16, mid: Bus16, x: Bus16, c2: bool, c1: bool)
    requires
        routed(out, mid, c2),
        routed(mid, x, c1),
    ensures
        routed(out, x, c1 && c2),
{
}

/// Routes the bus to output 0 when `sel` is low, to output 1 when it is high;
/// the unselected output is all zeros.
pub fn dmux(x: &Bus16, sel: Bit) -> (r: [Bus16; 2])
    ensures
        routed(r[0], *x, !sel.as_bool()),
        routed(r[1], *x, sel.as_bool()),
{
    let not_sel = bit::not(sel);
    [and(x, &fill(not_sel)), and(x, &fill(sel))]
}

/// Routes the bus to the output numbered by the two-bit selector; the other
/// three outputs are all zeros.
pub fn dmux4way16(x: &Bus16, sel: &Bus2) -> (r: [Bus16; 4])
    ensures
        routed(r[0], *x, bus2_val(*sel) == 0),
        routed(r[1], *x, bus2_val(*sel) == 1),
        routed(r[2], *x, bus2_val(*sel) == 2),
        routed(r[3], *x, bus2_val(*sel) == 3),
{
    let uv = dmux(x, sel[0]);
    let u = uv[0];
    let v = uv[1];
    let ab = dmux(&u, sel[1]);
    let cd = dmux(&v, sel[1]);
    let r_out = [ab[0], ab[1], cd[0], cd[1]];
    proof {
        lemma_routed_trans(ab[0], u, *x, !sel[1].as_bool(), !sel[0].as_bool());
        lemma_routed_trans(ab[1], u, *x, sel[1].as_bool(), !sel[0].as_bool());
        lemma_routed_trans(cd[0], v, *x, !sel[1].as_bool(), sel[0].as_bool());
        lemma_routed_trans(cd[1], v, *x, sel[1].as_bool(), sel[0].as_bool());
        reveal(bitv);
        assert(bus2_val(*sel) == 2 * bitv(sel[0]) + bitv(sel[1]));
    }
    r_out
}

/// Routes the bus to the output numbered by the three-bit selector; the other
/// seven outputs are all zeros.
pub fn dmux8way16(x: &Bus16, sel: &Bus3) -> (r: [Bus16; 8])
    ensures
        routed(r[0], *x, bus3_val(*sel) == 0),
        routed(r[1], *x, bus3_val(*sel) == 1),
        routed(r[2], *x, bus3_val(*sel) == 2),
        routed(r[3], *x, bus3_val(*sel) == 3),
        routed(r[4], *x, bus3_val(*sel) == 4),
        routed(r[5], *x, bus3_val(*sel) == 5),
        routed(r[6], *x, bus3_val(*sel) == 6),
        routed(r[7], *x, bus3_val(*sel) == 7),
{
    let b2 = [sel[0], sel[1]];
    let q = dmux4way16(x, &b2);
    let q0 = q[0];
    let q1 = q[1];
    let q2 = q[2];
    let q3 = q[3];
    let ab = dmux(&q0, sel[2]);
    let cd = dmux(&q1, sel[2]);
    let ef = dmux(&q2, sel[2]);
    let gh = dmux(&q3, sel[2]);
    let r_out = [ab[0], ab[1], cd[0], cd[1], ef[0], ef[1], gh[0], gh[1]];
    proof {
        lemma_routed_trans(ab[0], q0, *x, !sel[2].as_bool(), bus2_val(b2) == 0);
        lemma_routed_trans(ab[1], q0, *x, sel[2].as_bool(), bus2_val(b2) == 0);
        lemma_routed_trans(cd[0], q1, *x, !sel[2].as_bool(), bus2_val(b2) == 1);
        lemma_routed_trans(cd[1], q1, *x, sel[2].as_bool(), bus2_val(b2) == 1);
        lemma_routed_trans(ef[0], q2, *x, !sel[2].as_bool(), bus2_val(b2) == 2);
        lemma_routed_trans(ef[1], q2, *x, sel[2].as_bool(), bus2_val(b2) == 2);
        lemma_routed_trans(gh[0], q3, *x, !sel[2].as_bool(), bus2_val(b2) == 3);
        lemma_routed_trans(gh[1], q3, *x, sel[2].as_bool(), bus2_val(b2) == 3);
        reveal(bitv);
        assert(bus2_val(b2) == 2 * bitv(sel[0]) + bitv(sel[1]));
        assert(bus3_val(*sel) == 2 * bus2_val(b2) + bitv(sel[2]));
    }
    r_out
}

/// OR of all sixteen bits: high exactly when the bus value is not zero.
pub fn or16way(x: &Bus16) -> (r: Bit)
    ensures
        r.as_bool() == (bus16_val(*x) != 0),
{
    let r = bit::or(
        bit::or(
            bit::or(bit::or(x[0], x[1]), bit::or(x[2], x[3])),
            bit::or(bit::or(x[4], x[5]), bit::or(x[6], x[7])),
        ),
        bit::or(
            bit::or(bit::or(x[8], x[9]), bit::or(x[10], x[11])),
            bit::or(bit::or(x[12], x[13]), bit::or(x[14], x[15])),
        ),
    );
    proof {
        lemma_val_zero(*x);
        if !r.as_bool() {
            assert(bus16_val(*x) == 0);
        } else {
            assert(bus16_val(*x) != 0);
        }
    }
    r
}

/// A bus reads as zero exactly when each of its sixteen bits is low.
pub proof fn lemma_val_zero(x: Bus16)
    ensures
        (bus16_val(x) == 0) == (!x[0].as_bool() && !x[1].as_bool() && !x[2].as_bool()
            && !x[3].as_bool() && !x[4].as_bool() && !x[5].as_bool() && !x[6].as_bool()
            && !x[7].as_bool() && !x[8].as_bool() && !x[9].as_bool() && !x[10].as_bool()
            && !x[11].as_bool() && !x[12].as_bool() && !x[13].as_bool() && !x[14].as_bool()
            && !x[15].as_bool()),
{
    reveal(bitv);
    reveal(bus16_val);
}

/// The low fifteen bits of a bus, dropping the sign bit.
pub fn into_bus15(x: &Bus16) -> (r: [Bit; 15])
    ensures
        forall|i: int| 0 <= i < 15 ==> r[i].as_bool() == x[i + 1].as_bool(),
{
    [
        x[0x1],
        x[0x2],
        x[0x3],
        x[0x4],
        x[0x5],
        x[0x6],
        x[0x7],
        x[0x8],
        x[0x9],
        x[0xa],
        x[0xb],
        x[0xc],
        x[0xd],
        x[0xe],
        x[0xf],
    ]
}

/// The low thirteen bits of a bus: a data-memory address.
pub fn into_bus13(x: &Bus16) -> (r: [Bit; 13])
    ensures
        forall|i: int| 0 <= i < 13 ==> r[i].as_bool() == x[i + 3].as_bool(),
{
    [
        x[0x3],
        x[0x4],
        x[0x5],
        x[0x6],
        x[0x7],
        x[0x8],
        x[0x9],
        x[0xa],
        x[0xb],
        x[0xc],
        x[0xd],
        x[0xe],
        x[0xf],
    ]
}

/// Builds the bus whose bit `b` is set exactly when bit `15 - b` of `i` is,
/// for each of the sixteen bus positions.
pub fn make_bus16(i: i32) -> (r: Bus16)
    ensures
        forall|b: int| 0 <= b < 16 ==> r[b].as_bool() == (i & (1i32 << ((15 - b) as i32)) != 0),
{
    let mut r: Bus16 = [Bit::Negative; 16];
    let mut b: usize = 0;
    while b < 16
        invariant
            0 <= b <= 16,
            forall|j: int| 0 <= j < b ==> r[j].as_bool() == (i & (1i32 << ((15 - j) as i32)) != 0),
        decreases 16 - b,
    {
        r[b] = bit::make_bit(i & (1i32 << ((15 - b) as i32)) != 0);
        b = b + 1;
    }
    r
}

/// Reads a bus back as the unsigned value of its bits.
#[verifier::spinoff_prover]
#[verifier::rlimit(60)]
pub fn into_i32(x: &Bus16) -> (r: i32)
    ensures
        r == bus16_val(*x),
{
    let hi = octet_val(x[0], x[1], x[2], x[3], x[4], x[5], x[6], x[7]);
    let lo = octet_val(x[8], x[9], x[10], x[11], x[12], x[13], x[14], x[15]);
    proof {
        reveal(bitv);
        reveal(bus16_val);
        assert(0 <= hi < 256);
        assert(0 <= lo < 256);
        assert(hi * 256 + lo == bus16_val(*x)) by (nonlinear_arith)
            requires
                hi == 128 * bitv(x[0]) + 64 * bitv(x[1]) + 32 * bitv(x[2]) + 16 * bitv(x[3]) + 8
                    * bitv(x[4]) + 4 * bitv(x[5]) + 2 * bitv(x[6]) + bitv(x[7]),
                lo == 128 * bitv(x[8]) + 64 * bitv(x[9]) + 32 * bitv(x[10]) + 16 * bitv(x[11]) + 8
                    * bitv(x[12]) + 4 * bitv(x[13]) + 2 * bitv(x[14]) + bitv(x[15]),
                bus16_val(*x) == 32768 * bitv(x[0]) + 16384 * bitv(x[1]) + 8192 * bitv(x[2]) + 4096
                    * bitv(x[3]) + 2048 * bitv(x[4]) + 1024 * bitv(x[5]) + 512 * bitv(x[6]) + 256
                    * bitv(x[7]) + 128 * bitv(x[8]) + 64 * bitv(x[9]) + 32 * bitv(x[10]) + 16
                    * bitv(x[11]) + 8 * bitv(x[12]) + 4 * bitv(x[13]) + 2 * bitv(x[14]) + bitv(
                    x[15],
                ),
                0 <= hi < 256,
                0 <= lo < 256,
        ;
    }
    let r_out = hi * 256 + lo;
    proof {
        assert(r_out == bus16_val(*x));
    }
    r_out
}

/// The unsigned value of eight adjacent bits, most significant first.
fn octet_val(b0: Bit, b1: Bit, b2: Bit, b3: Bit, b4: Bit, b5: Bit, b6: Bit, b7: Bit) -> (r: i32)
    ensures
        r == 128 * bitv(b0) + 64 * bitv(b1) + 32 * bitv(b2) + 16 * bitv(b3) + 8 * bitv(b4) + 4
            * bitv(b5) + 2 * bitv(b6) + bitv(b7),
{
    let t0 = term(b0, 128);
    let t1 = term(b1, 64);
    let t2 = term(b2, 32);
    let t3 = term(b3, 16);
    let t4 = term(b4, 8);
    let t5 = term(b5, 4);
    let t6 = term(b6, 2);
    let t7 = term(b7, 1);
    let r_out = ((t0 + t1) + (t2 + t3)) + ((t4 + t5) + (t6 + t7));
    proof {
        reveal(bitv);
        assert(r_out == 128 * bitv(b0) + 64 * bitv(b1) + 32 * bitv(b2) + 16 * bitv(b3) + 8 * bitv(
            b4,
        ) + 4 * bitv(b5) + 2 * bitv(b6) + bitv(b7));
    }
    r_out
}

/// The weight a bit contributes to the value of its bus: `w` when high,
/// nothing when low.
fn term(b: Bit, w: i32) -> (t: i32)
    requires
        0 <= w <= 32768,
    ensures
        t == if b.as_bool() {
            w
        } else {
            0
        },
{
    match b {
        Bit::Positive => w,
        Bit::Negative => 0,
    }
}


/// Buses whose bits agree pairwise have the same value.
pub proof fn lemma_val_eq_bools(x: Bus16, y: Bus16)
    requires
        forall|i: int| 0 <= i < 16 ==> x[i].as_bool() == y[i].as_bool(),
    ensures
        bus16_val(x) == bus16_val(y),
{
    reveal(bitv);
    reveal(bus16_val);
}

/// A bus of all-low bits reads as zero.
pub proof fn lemma_val_all_low(x: Bus16)
    requires
        forall|i: int| 0 <= i < 16 ==> !x[i].as_bool(),
    ensures
        bus16_val(x) == 0,
{
    reveal(bitv);
    reveal(bus16_val);
}

/// A bitwise complement reads as 65535 minus the original value.
pub proof fn lemma_val_not(x: Bus16, y: Bus16)
    requires
        forall|i: int| 0 <= i < 16 ==> y[i].as_bool() == !x[i].as_bool(),
    ensures
        bus16_val(y) == 65535 - bus16_val(x),
{
    reveal(bitv);
    reveal(bus16_val);
}

/// The most significant bit is high exactly when the value reaches 2^15,
/// that is, when the signed reading is negative.
pub proof fn lemma_sign_bit(x: Bus16)
    ensures
        x[0].as_bool() == (bus16_val(x) >= 32768),
        x[0].as_bool() == (bus16_ival(x) < 0),
{
    reveal(bitv);
    reveal(bus16_val);
}


/// The value of a multiplexed bus is the value of the chosen input.
pub proof fn lemma_val_mux(r: Bus16, x: Bus16, y: Bus16, sel: Bit)
    requires
        forall|i: int|
            0 <= i < 16 ==> r[i].as_bool() == if sel.as_bool() {
                y[i].as_bool()
            } else {
                x[i].as_bool()
            },
    ensures
        bus16_val(r) == if sel.as_bool() {
            bus16_val(y)
        } else {
            bus16_val(x)
        },
{
    reveal(bitv);
    reveal(bus16_val);
}


/// Bits that agree as booleans are the same bits: two-valued signals leave
/// no third case.
pub proof fn lemma_bits_eq(x: Bus16, y: Bus16)
    requires
        forall|i: int| 0 <= i < 16 ==> x[i].as_bool() == y[i].as_bool(),
    ensures
        x == y,
{
    assert forall|i: int| 0 <= i < 16 implies x@[i] == y@[i] by {
        assert(x[i].as_bool() == y[i].as_bool());
        if x[i].as_bool() {
            assert(x[i] == Bit::Positive);
            assert(y[i] == Bit::Positive);
        } else {
            assert(x[i] == Bit::Negative);
            assert(y[i] == Bit::Negative);
        }
    }
    assert(x@ =~= y@);
}

/// A multiplexed bus equals the chosen input bus, bit for bit.
pub proof fn lemma_mux_picks(r: Bus16, x: Bus16, y: Bus16, sel: Bit)
    requires
        forall|i: int|
            0 <= i < 16 ==> r[i].as_bool() == if sel.as_bool() {
                y[i].as_bool()
            } else {
                x[i].as_bool()
            },
    ensures
        r == if sel.as_bool() {
            y
        } else {
            x
        },
{
    if sel.as_bool() {
        lemma_bits_eq(r, y);
    } else {
        lemma_bits_eq(r, x);
    }
}

/// An eight-way multiplexed bus equals the selected input bus, bit for bit.
pub proof fn lemma_mux8way_picks(
    r: Bus16,
    a: Bus16,
    b: Bus16,
    c: Bus16,
    d: Bus16,
    e: Bus16,
    f: Bus16,
    g: Bus16,
    h: Bus16,
    sel: Bus3,
)
    requires
        forall|i: int|
            0 <= i < 16 ==> r[i].as_bool() == if bus3_val(sel) == 0 {
                a[i].as_bool()
            } else if bus3_val(sel) == 1 {
                b[i].as_bool()
            } else if bus3_val(sel) == 2 {
                c[i].as_bool()
            } else if bus3_val(sel) == 3 {
                d[i].as_bool()
            } else if bus3_val(sel) == 4 {
                e[i].as_bool()
            } else if bus3_val(sel) == 5 {
                f[i].as_bool()
            } else if bus3_val(sel) == 6 {
                g[i].as_bool()
            } else {
                h[i].as_bool()
            },
    ensures
        r == if bus3_val(sel) == 0 {
            a
        } else if bus3_val(sel) == 1 {
            b
        } else if bus3_val(sel) == 2 {
            c
        } else if bus3_val(sel) == 3 {
            d
        } else if bus3_val(sel) == 4 {
            e
        } else if bus3_val(sel) == 5 {
            f
        } else if bus3_val(sel) == 6 {
            g
        } else {
            h
        },
{
    if bus3_val(sel) == 0 {
        lemma_bits_eq(r, a);
    } else if bus3_val(sel) == 1 {
        lemma_bits_eq(r, b);
    } else if bus3_val(sel) == 2 {
        lemma_bits_eq(r, c);
    } else if bus3_val(sel) == 3 {
        lemma_bits_eq(r, d);
    } else if bus3_val(sel) == 4 {
        lemma_bits_eq(r, e);
    } else if bus3_val(sel) == 5 {
        lemma_bits_eq(r, f);
    } else if bus3_val(sel) == 6 {
        lemma_bits_eq(r, g);
    } else {
        lemma_bits_eq(r, h);
    }
}


/// The unsigned value of a fifteen-bit bus, most significant bit first.
pub open spec fn bus15_val(a: [Bit; 15]) -> int {
    16384 * bitv(a[0]) + 8192 * bitv(a[1]) + 4096 * bitv(a[2]) + 2048 * bitv(a[3]) + 1024 * bitv(
        a[4],
    ) + 512 * bitv(a[5]) + 256 * bitv(a[6]) + 128 * bitv(a[7]) + 64 * bitv(a[8]) + 32 * bitv(a[9])
        + 16 * bitv(a[10]) + 8 * bitv(a[11]) + 4 * bitv(a[12]) + 2 * bitv(a[13]) + bitv(a[14])
}

/// The unsigned value of a thirteen-bit bus, most significant bit first.
pub open spec fn bus13_val(a: [Bit; 13]) -> int {
    4096 * bitv(a[0]) + 2048 * bitv(a[1]) + 1024 * bitv(a[2]) + 512 * bitv(a[3]) + 256 * bitv(a[4])
        + 128 * bitv(a[5]) + 64 * bitv(a[6]) + 32 * bitv(a[7]) + 16 * bitv(a[8]) + 8 * bitv(a[9])
        + 4 * bitv(a[10]) + 2 * bitv(a[11]) + bitv(a[12])
}

/// The low fifteen bits of a bus read as its value modulo 2^15.
pub proof fn lemma_low15(r: [Bit; 15], x: Bus16)
    requires
        forall|i: int| 0 <= i < 15 ==> r[i].as_bool() == x[i + 1].as_bool(),
    ensures
        bus15_val(r) == bus16_val(x) % 32768,
{
    reveal(bitv);
    reveal(bus16_val);
    lemma_bitv_bound(x[0]);
    if x[0].as_bool() {
        assert(bus16_val(x) == 32768 + bus15_val(r));
    } else {
        assert(bus16_val(x) == bus15_val(r));
    }
    assert(0 <= bus15_val(r) < 32768);
}

/// The low thirteen bits of a bus read as its value modulo 2^13.
#[verifier::spinoff_prover]
#[verifier::rlimit(100)]
pub proof fn lemma_low13(r: [Bit; 13], x: Bus16)
    requires
        forall|i: int| 0 <= i < 13 ==> r[i].as_bool() == x[i + 3].as_bool(),
    ensures
        bus13_val(r) == bus16_val(x) % 8192,
{
    reveal(bitv);
    reveal(bus16_val);
    let hi = 4 * bitv(x[0]) + 2 * bitv(x[1]) + bitv(x[2]);
    assert(bus16_val(x) == 8192 * hi + bus13_val(r));
    assert(0 <= bus13_val(r) < 8192);
    assert(0 <= hi <= 7);
    assert(bus13_val(r) == bus16_val(x) % 8192) by (nonlinear_arith)
        requires
            bus16_val(x) == 8192 * hi + bus13_val(r),
            0 <= bus13_val(r) < 8192,
            0 <= hi <= 7,
    ;
}


/// A bus whose bit `b` mirrors bit `15 - b` of a non-negative machine word
/// reads back as that word.
#[verifier::spinoff_prover]
#[verifier::rlimit(100)]
pub proof fn lemma_make_val(r: Bus16, i: i32)
    requires
        0 <= i < 65536,
        forall|b: int| 0 <= b < 16 ==> r[b].as_bool() == (i & (1i32 << ((15 - b) as i32)) != 0),
    ensures
        bus16_val(r) == i,
{
    reveal(bitv);
    reveal(bus16_val);
    assert(1i32 << 15i32 == 32768) by (bit_vector);
    assert(1i32 << 14i32 == 16384) by (bit_vector);
    assert(1i32 << 13i32 == 8192) by (bit_vector);
    assert(1i32 << 12i32 == 4096) by (bit_vector);
    assert(1i32 << 11i32 == 2048) by (bit_vector);
    assert(1i32 << 10i32 == 1024) by (bit_vector);
    assert(1i32 << 9i32 == 512) by (bit_vector);
    assert(1i32 << 8i32 == 256) by (bit_vector);
    assert(1i32 << 7i32 == 128) by (bit_vector);
    assert(1i32 << 6i32 == 64) by (bit_vector);
    assert(1i32 << 5i32 == 32) by (bit_vector);
    assert(1i32 << 4i32 == 16) by (bit_vector);
    assert(1i32 << 3i32 == 8) by (bit_vector);
    assert(1i32 << 2i32 == 4) by (bit_vector);
    assert(1i32 << 1i32 == 2) by (bit_vector);
    assert(1i32 << 0i32 == 1) by (bit_vector);
    assert(i == (i & 32768) + (i & 16384) + (i & 8192) + (i & 4096) + (i & 2048) + (i & 1024) + (i & 512) + (i & 256) + (i & 128) + (i & 64) + (i & 32) + (i & 16) + (i & 8) + (i & 4) + (i & 2) + (i & 1)) by (bit_vector)
        requires
            0 <= i < 65536,
    ;
    assert(i & 32768 == 0 || i & 32768 == 32768) by (bit_vector);
    assert(i & 16384 == 0 || i & 16384 == 16384) by (bit_vector);
    assert(i & 8192 == 0 || i & 8192 == 8192) by (bit_vector);
    assert(i & 4096 == 0 || i & 4096 == 4096) by (bit_vector);
    assert(i & 2048 == 0 || i & 2048 == 2048) by (bit_vector);
    assert(i & 1024 == 0 || i & 1024 == 1024) by (bit_vector);
    assert(i & 512 == 0 || i & 512 == 512) by (bit_vector);
    assert(i & 256 == 0 || i & 256 == 256) by (bit_vector);
    assert(i & 128 == 0 || i & 128 == 128) by (bit_vector);
    assert(i & 64 == 0 || i & 64 == 64) by (bit_vector);
    assert(i & 32 == 0 || i & 32 == 32) by (bit_vector);
    assert(i & 16 == 0 || i & 16 == 16) by (bit_vector);
    assert(i & 8 == 0 || i & 8 == 8) by (bit_vector);
    assert(i & 4 == 0 || i & 4 == 4) by (bit_vector);
    assert(i & 2 == 0 || i & 2 == 2) by (bit_vector);
    assert(i & 1 == 0 || i & 1 == 1) by (bit_vector);
    assert((i & 32768) == if r[0].as_bool() { 32768int } else { 0int });
    assert((i & 16384) == if r[1].as_bool() { 16384int } else { 0int });
    assert((i & 8192) == if r[2].as_bool() { 8192int } else { 0int });
    assert((i & 4096) == if r[3].as_bool() { 4096int } else { 0int });
    assert((i & 2048) == if r[4].as_bool() { 2048int } else { 0int });
    assert((i & 1024) == if r[5].as_bool() { 1024int } else { 0int });
    assert((i & 512) == if r[6].as_bool() { 512int } else { 0int });
    assert((i & 256) == if r[7].as_bool() { 256int } else { 0int });
    assert((i & 128) == if r[8].as_bool() { 128int } else { 0int });
    assert((i & 64) == if r[9].as_bool() { 64int } else { 0int });
    assert((i & 32) == if r[10].as_bool() { 32int } else { 0int });
    assert((i & 16) == if r[11].as_bool() { 16int } else { 0int });
    assert((i & 8) == if r[12].as_bool() { 8int } else { 0int });
    assert((i & 4) == if r[13].as_bool() { 4int } else { 0int });
    assert((i & 2) == if r[14].as_bool() { 2int } else { 0int });
    assert((i & 1) == if r[15].as_bool() { 1int } else { 0int });
}

} // verus!
