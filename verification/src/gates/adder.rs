//! The ripple-carry adder and the ALU, composed from the NAND-derived gates.
//!
//! Arithmetic is two's complement over sixteen bits; addition wraps modulo
//! 2^16 and the carry out of the sign bit is discarded.

use vstd::arithmetic::power2::{lemma2_to64, lemma_pow2_unfold, pow2};
use vstd::prelude::*;

use crate::gates::bit;
use crate::gates::bus16;
use crate::gates::bus16::{bitv, bus16_ival, bus16_val, Bus16};
use crate::primitive::Bit;

verus! {

struct AdderOut {
    sum: Bit,
    carry: Bit,
}

/// Adds two bits: the sum and carry together weigh `a + b`.
fn half_adder(a: Bit, b: Bit) -> (r: AdderOut)
    ensures
        bitv(r.sum) + 2 * bitv(r.carry) == bitv(a) + bitv(b),
{
    proof {
        reveal(crate::gates::bus16::bitv);
    }
    AdderOut { sum: bit::xor(a, b), carry: bit::and(a, b) }
}

/// Adds two bits and a carry, from two half adders: the sum and carry
/// together weigh `a + b + c`.
fn full_adder(a: Bit, b: Bit, c: Bit) -> (r: AdderOut)
    ensures
        bitv(r.sum) + 2 * bitv(r.carry) == bitv(a) + bitv(b) + bitv(c),
{
    proof {
        reveal(crate::gates::bus16::bitv);
    }
    let h1 = half_adder(a, b);
    let h2 = half_adder(h1.sum, c);
    AdderOut { sum: h2.sum, carry: bit::or(h1.carry, h2.carry) }
}

/// The weighted value of bits `k` .. 15 of a bus, where bit 15 weighs one:
/// the value of the bus's low end.
pub open spec fn tail_val(x: Bus16, k: int) -> int
    decreases 16 - k,
{
    if k < 0 || k >= 16 {
        0
    } else {
        pow2((15 - k) as nat) * bitv(x[k]) + tail_val(x, k + 1)
    }
}

/// The whole tail is the bus value itself.
proof fn lemma_tail_val_is_val(x: Bus16)
    ensures
        tail_val(x, 0) == bus16_val(x),
{
    reveal(crate::gates::bus16::bus16_val);
    lemma2_to64();
    assert(tail_val(x, 16) == 0);
    assert(tail_val(x, 15) == 1 * bitv(x[15]) + tail_val(x, 16)) by (nonlinear_arith)
        requires
            tail_val(x, 15) == pow2(0) * bitv(x[15]) + tail_val(x, 16),
            pow2(0) == 1,
    ;
    assert(tail_val(x, 14) == 2 * bitv(x[14]) + tail_val(x, 15)) by (nonlinear_arith)
        requires
            tail_val(x, 14) == pow2(1) * bitv(x[14]) + tail_val(x, 15),
            pow2(1) == 2,
    ;
    assert(tail_val(x, 13) == 4 * bitv(x[13]) + tail_val(x, 14)) by (nonlinear_arith)
        requires
            tail_val(x, 13) == pow2(2) * bitv(x[13]) + tail_val(x, 14),
            pow2(2) == 4,
    ;
    assert(tail_val(x, 12) == 8 * bitv(x[12]) + tail_val(x, 13)) by (nonlinear_arith)
        requires
            tail_val(x, 12) == pow2(3) * bitv(x[12]) + tail_val(x, 13),
            pow2(3) == 8,
    ;
    assert(tail_val(x, 11) == 16 * bitv(x[11]) + tail_val(x, 12)) by (nonlinear_arith)
        requires
            tail_val(x, 11) == pow2(4) * bitv(x[11]) + tail_val(x, 12),
            pow2(4) == 16,
    ;
    assert(tail_val(x, 10) == 32 * bitv(x[10]) + tail_val(x, 11)) by (nonlinear_arith)
        requires
            tail_val(x, 10) == pow2(5) * bitv(x[10]) + tail_val(x, 11),
            pow2(5) == 32,
    ;
    assert(tail_val(x, 9) == 64 * bitv(x[9]) + tail_val(x, 10)) by (nonlinear_arith)
        requires
            tail_val(x, 9) == pow2(6) * bitv(x[9]) + tail_val(x, 10),
            pow2(6) == 64,
    ;
    assert(tail_val(x, 8) == 128 * bitv(x[8]) + tail_val(x, 9)) by (nonlinear_arith)
        requires
            tail_val(x, 8) == pow2(7) * bitv(x[8]) + tail_val(x, 9),
            pow2(7) == 128,
    ;
    assert(tail_val(x, 7) == 256 * bitv(x[7]) + tail_val(x, 8)) by (nonlinear_arith)
        requires
            tail_val(x, 7) == pow2(8) * bitv(x[7]) + tail_val(x, 8),
            pow2(8) == 256,
    ;
    assert(tail_val(x, 6) == 512 * bitv(x[6]) + tail_val(x, 7)) by (nonlinear_arith)
        requires
            tail_val(x, 6) == pow2(9) * bitv(x[6]) + tail_val(x, 7),
            pow2(9) == 512,
    ;
    assert(tail_val(x, 5) == 1024 * bitv(x[5]) + tail_val(x, 6)) by (nonlinear_arith)
        requires
            tail_val(x, 5) == pow2(10) * bitv(x[5]) + tail_val(x, 6),
            pow2(10) == 1024,
    ;
    assert(tail_val(x, 4) == 2048 * bitv(x[4]) + tail_val(x, 5)) by (nonlinear_arith)
        requires
            tail_val(x, 4) == pow2(11) * bitv(x[4]) + tail_val(x, 5),
            pow2(11) == 2048,
    ;
    assert(tail_val(x, 3) == 4096 * bitv(x[3]) + tail_val(x, 4)) by (nonlinear_arith)
        requires
            tail_val(x, 3) == pow2(12) * bitv(x[3]) + tail_val(x, 4),
            pow2(12) == 4096,
    ;
    assert(tail_val(x, 2) == 8192 * bitv(x[2]) + tail_val(x, 3)) by (nonlinear_arith)
        requires
            tail_val(x, 2) == pow2(13) * bitv(x[2]) + tail_val(x, 3),
            pow2(13) == 8192,
    ;
    assert(tail_val(x, 1) == 16384 * bitv(x[1]) + tail_val(x, 2)) by (nonlinear_arith)
        requires
            tail_val(x, 1) == pow2(14) * bitv(x[1]) + tail_val(x, 2),
            pow2(14) == 16384,
    ;
    assert(tail_val(x, 0) == 32768 * bitv(x[0]) + tail_val(x, 1)) by (nonlinear_arith)
        requires
            tail_val(x, 0) == pow2(15) * bitv(x[0]) + tail_val(x, 1),
            pow2(15) == 32768,
    ;
}

/// Two buses that agree on bits `k` and beyond have the same tail value.
proof fn lemma_tail_val_agree(x: Bus16, y: Bus16, k: int)
    requires
        forall|j: int| k <= j < 16 ==> x[j] == y[j],
    ensures
        tail_val(x, k) == tail_val(y, k),
    decreases 16 - k,
{
    if 0 <= k < 16 {
        lemma_tail_val_agree(x, y, k + 1);
    } else if k < 0 {
        assert(tail_val(x, k) == 0);
        assert(tail_val(y, k) == 0);
    }
}

/// Ripple-carry addition, least significant bit (index 15) first; the carry
/// out of the most significant bit is discarded, so the sum wraps modulo 2^16.
pub fn add16(a: &Bus16, b: &Bus16) -> (r: Bus16)
    ensures
        bus16_val(r) == (bus16_val(*a) + bus16_val(*b)) % 65536,
{
    let mut r: Bus16 = [Bit::Negative; 16];
    let o15 = half_adder(a[15], b[15]);
    r[15] = o15.sum;
    let mut carry = o15.carry;
    let mut k: usize = 15;
    proof {
        reveal(crate::gates::bus16::bitv);
        lemma2_to64();
        assert(tail_val(r, 16) == 0);
        assert(tail_val(*a, 16) == 0);
        assert(tail_val(*b, 16) == 0);
        assert(tail_val(r, 15) + pow2(1) * bitv(carry) == tail_val(*a, 15) + tail_val(*b, 15))
            by (nonlinear_arith)
            requires
                tail_val(r, 15) == pow2(0) * bitv(r[15]) + tail_val(r, 16),
                tail_val(*a, 15) == pow2(0) * bitv(a[15]) + tail_val(*a, 16),
                tail_val(*b, 15) == pow2(0) * bitv(b[15]) + tail_val(*b, 16),
                tail_val(r, 16) == 0,
                tail_val(*a, 16) == 0,
                tail_val(*b, 16) == 0,
                pow2(0) == 1,
                pow2(1) == 2,
                bitv(r[15]) + 2 * bitv(carry) == bitv(a[15]) + bitv(b[15]),
        ;
    }
    while k > 0
        invariant
            0 <= k <= 15,
            tail_val(r, k as int) + pow2((16 - k) as nat) * bitv(carry) == tail_val(*a, k as int)
                + tail_val(*b, k as int),
        decreases k,
    {
        k = k - 1;
        let ghost r_prev = r;
        let ghost carry_prev = carry;
        let o = full_adder(a[k], b[k], carry);
        r[k] = o.sum;
        carry = o.carry;
        proof {
            let kk = k as int;
            let w = pow2((15 - kk) as nat);
            lemma_pow2_unfold((16 - kk) as nat);
            lemma_tail_val_agree(r, r_prev, kk + 1);
            assert(tail_val(r, kk) + pow2((16 - kk) as nat) * bitv(carry) == tail_val(*a, kk)
                + tail_val(*b, kk)) by (nonlinear_arith)
                requires
                    tail_val(r, kk) == w * bitv(o.sum) + tail_val(r, kk + 1),
                    tail_val(*a, kk) == w * bitv(a[kk]) + tail_val(*a, kk + 1),
                    tail_val(*b, kk) == w * bitv(b[kk]) + tail_val(*b, kk + 1),
                    tail_val(r, kk + 1) + w * bitv(carry_prev) == tail_val(*a, kk + 1) + tail_val(
                        *b,
                        kk + 1,
                    ),
                    bitv(o.sum) + 2 * bitv(carry) == bitv(a[kk]) + bitv(b[kk]) + bitv(carry_prev),
                    pow2((16 - kk) as nat) == 2 * w,
            ;
        }
    }
    proof {
        lemma_tail_val_is_val(r);
        lemma_tail_val_is_val(*a);
        lemma_tail_val_is_val(*b);
        bus16::lemma_val_bound(r);
        bus16::lemma_bitv_bound(carry);
        assert(pow2(16) == 65536) by {
            lemma2_to64();
        }
        lemma_wrap_by_carry(bus16_val(r), bitv(carry), bus16_val(*a) + bus16_val(*b));
    }
    r
}

/// A sum that equals `s` plus a carry worth 2^16 reduces to `s` modulo 2^16.
proof fn lemma_wrap_by_carry(s: int, c: int, total: int)
    requires
        0 <= s < 65536,
        0 <= c <= 1,
        s + 65536 * c == total,
    ensures
        s == total % 65536,
{
    if c == 0 {
        assert(total % 65536 == s) by (nonlinear_arith)
            requires
                total == s,
                0 <= s < 65536,
        ;
    } else {
        assert(total % 65536 == s) by (nonlinear_arith)
            requires
                total == s + 65536,
                0 <= s < 65536,
        ;
    }
}

/// Adds one to the bus, wrapping modulo 2^16.
pub fn inc16(a: &Bus16) -> (r: Bus16)
    ensures
        bus16_val(r) == (bus16_val(*a) + 1) % 65536,
{
    let one = [
        Bit::Negative,
        Bit::Negative,
        Bit::Negative,
        Bit::Negative,
        Bit::Negative,
        Bit::Negative,
        Bit::Negative,
        Bit::Negative,
        Bit::Negative,
        Bit::Negative,
        Bit::Negative,
        Bit::Negative,
        Bit::Negative,
        Bit::Negative,
        Bit::Negative,
        Bit::Positive,
    ];
    proof {
        reveal(crate::gates::bus16::bitv);
        reveal(crate::gates::bus16::bus16_val);
        assert(bus16_val(one) == 1);
    }
    add16(a, &one)
}


/// The six control bits of the ALU.
pub struct AluControl {
    pub zx: Bit,
    pub nx: Bit,
    pub zy: Bit,
    pub ny: Bit,
    pub f: Bit,
    pub no: Bit,
}

/// The ALU's outputs: the result bus, the zero flag and the negative flag.
pub struct AluOut {
    pub out: Bus16,
    pub zr: Bit,
    pub ng: Bit,
}

/// An operand value after the zero and negate stages: zeroed when `z` is
/// high, then complemented (65535 minus it) when `n` is high.
pub open spec fn stage_val(v: int, z: Bit, n: Bit) -> int {
    let t = if z.as_bool() {
        0int
    } else {
        v
    };
    if n.as_bool() {
        65535 - t
    } else {
        t
    }
}

/// One operand bit after the zero and negate stages.
pub open spec fn stage_bit(b: bool, z: Bit, n: Bit) -> bool {
    let t = if z.as_bool() {
        false
    } else {
        b
    };
    if n.as_bool() {
        !t
    } else {
        t
    }
}

/// The value the ALU computes on the adding path: the staged operands are
/// summed modulo 2^16, and the sum complemented when `no` is high.
pub open spec fn alu_add_val(vx: int, vy: int, c: AluControl) -> int {
    let s = (stage_val(vx, c.zx, c.nx) + stage_val(vy, c.zy, c.ny)) % 65536;
    if c.no.as_bool() {
        65535 - s
    } else {
        s
    }
}

/// One result bit on the ALU's AND path: the staged operand bits are
/// conjoined, and the conjunction inverted when `no` is high.
pub open spec fn alu_and_bit(xb: bool, yb: bool, c: AluControl) -> bool {
    let a = stage_bit(xb, c.zx, c.nx) && stage_bit(yb, c.zy, c.ny);
    if c.no.as_bool() {
        !a
    } else {
        a
    }
}

/// Holds when `out` is the ALU's AND-path result for `x`, `y` bitwise.
pub open spec fn alu_and_bits(out: Bus16, x: Bus16, y: Bus16, c: AluControl) -> bool {
    forall|i: int|
        0 <= i < 16 ==> out[i].as_bool() == alu_and_bit(x[i].as_bool(), y[i].as_bool(), c)
}

/// The ALU. Each operand is zeroed and complemented as its control bits ask;
/// the pair is then either summed (wrapping) or conjoined bitwise, the result
/// optionally complemented, and the zero and sign flags are read off it.
/// Stages one operand: zeroes it when `z` is high, then complements it
/// bitwise when `n` is high.
fn stage16(v: &Bus16, z: Bit, n: Bit) -> (r: Bus16)
    ensures
        forall|i: int| 0 <= i < 16 ==> r[i].as_bool() == stage_bit(v[i].as_bool(), z, n),
        bus16_val(r) == stage_val(bus16_val(*v), z, n),
{
    let zeros = bus16::fill(Bit::Negative);
    let v1 = bus16::mux(v, &zeros, z);
    let nv1 = bus16::not(&v1);
    let v2 = bus16::mux(&v1, &nv1, n);
    proof {
        assert(!Bit::Negative.as_bool());
        lemma_stage_bits(v2, nv1, v1, zeros, *v, z, n);
        lemma_stage_val(v2, *v, z, n);
    }
    v2
}

/// Reads the staged bits off the mux-and-complement network.
proof fn lemma_stage_bits(v2: Bus16, nv1: Bus16, v1: Bus16, zeros: Bus16, v: Bus16, z: Bit, n: Bit)
    requires
        forall|i: int| 0 <= i < 16 ==> zeros[i].as_bool() == Bit::Negative.as_bool(),
        forall|i: int|
            0 <= i < 16 ==> v1[i].as_bool() == if z.as_bool() {
                zeros[i].as_bool()
            } else {
                v[i].as_bool()
            },
        forall|i: int| 0 <= i < 16 ==> nv1[i].as_bool() == !v1[i].as_bool(),
        forall|i: int|
            0 <= i < 16 ==> v2[i].as_bool() == if n.as_bool() {
                nv1[i].as_bool()
            } else {
                v1[i].as_bool()
            },
    ensures
        forall|i: int| 0 <= i < 16 ==> v2[i].as_bool() == stage_bit(v[i].as_bool(), z, n),
{
}

/// The ALU. Each operand is zeroed and complemented as its control bits ask;
/// the pair is then either summed (wrapping) or conjoined bitwise, the result
/// optionally complemented, and the zero and sign flags are read off it.
#[verifier::spinoff_prover]
#[verifier::rlimit(100)]
pub fn alu(x: &Bus16, y: &Bus16, ctrl: AluControl) -> (r: AluOut)
    ensures
        ctrl.f.as_bool() ==> bus16_val(r.out) == alu_add_val(
            bus16_val(*x),
            bus16_val(*y),
            ctrl,
        ),
        !ctrl.f.as_bool() ==> alu_and_bits(r.out, *x, *y, ctrl),
        r.zr.as_bool() == (bus16_val(r.out) == 0),
        r.ng.as_bool() == r.out[0].as_bool(),
        r.ng.as_bool() == (bus16_ival(r.out) < 0),
{
    let x2 = stage16(x, ctrl.zx, ctrl.nx);
    let y2 = stage16(y, ctrl.zy, ctrl.ny);
    let and_o = bus16::and(&x2, &y2);
    let add_o = add16(&x2, &y2);
    let f_o = bus16::mux(&and_o, &add_o, ctrl.f);
    let nf_o = bus16::not(&f_o);
    let out = bus16::mux(&f_o, &nf_o, ctrl.no);
    let zr = bit::not(bus16::or16way(&out));
    let ng = out[0];
    proof {
        bus16::lemma_val_mux(f_o, and_o, add_o, ctrl.f);
        bus16::lemma_val_not(f_o, nf_o);
        bus16::lemma_val_mux(out, f_o, nf_o, ctrl.no);
        if !ctrl.f.as_bool() {
            lemma_and_path(out, nf_o, f_o, add_o, and_o, x2, y2, *x, *y, ctrl);
        }
        bus16::lemma_sign_bit(out);
    }
    AluOut { out, zr, ng }
}

/// Reads the AND-path bits off the mux network when the adder is not chosen.
proof fn lemma_and_path(
    out: Bus16,
    nf_o: Bus16,
    f_o: Bus16,
    add_o: Bus16,
    and_o: Bus16,
    x2: Bus16,
    y2: Bus16,
    x: Bus16,
    y: Bus16,
    c: AluControl,
)
    requires
        !c.f.as_bool(),
        forall|i: int| 0 <= i < 16 ==> x2[i].as_bool() == stage_bit(x[i].as_bool(), c.zx, c.nx),
        forall|i: int| 0 <= i < 16 ==> y2[i].as_bool() == stage_bit(y[i].as_bool(), c.zy, c.ny),
        forall|i: int| 0 <= i < 16 ==> and_o[i].as_bool() == (x2[i].as_bool() && y2[i].as_bool()),
        forall|i: int|
            0 <= i < 16 ==> f_o[i].as_bool() == if c.f.as_bool() {
                add_o[i].as_bool()
            } else {
                and_o[i].as_bool()
            },
        forall|i: int| 0 <= i < 16 ==> nf_o[i].as_bool() == !f_o[i].as_bool(),
        forall|i: int|
            0 <= i < 16 ==> out[i].as_bool() == if c.no.as_bool() {
                nf_o[i].as_bool()
            } else {
                f_o[i].as_bool()
            },
    ensures
        alu_and_bits(out, x, y, c),
{
}

/// Staging a bus bitwise stages its value: the staged bus reads as
/// `stage_val` of the original.
proof fn lemma_stage_val(staged: Bus16, x: Bus16, z: Bit, n: Bit)
    requires
        forall|i: int| 0 <= i < 16 ==> staged[i].as_bool() == stage_bit(x[i].as_bool(), z, n),
    ensures
        bus16_val(staged) == stage_val(bus16_val(x), z, n),
{
    reveal(crate::gates::bus16::bitv);
    reveal(crate::gates::bus16::bus16_val);
}


/// Reduces a sum of two bus values by one wrap.
proof fn lemma_mod_reduce(a: int)
    requires
        0 <= a < 131072,
    ensures
        a % 65536 == if a < 65536 {
            a
        } else {
            a - 65536
        },
{
    if a < 65536 {
        assert(a % 65536 == a) by (nonlinear_arith)
            requires
                0 <= a < 65536,
        ;
    } else {
        assert(a % 65536 == a - 65536) by (nonlinear_arith)
            requires
                65536 <= a < 131072,
        ;
    }
}

/// The ALU table: under each of the eighteen canonical control settings the
/// ALU computes the advertised function of its operands, as 16-bit
/// two's-complement values wrapping modulo 2^16. The hypotheses are exactly
/// what `alu` ensures of its result.
pub proof fn lemma_alu_table(x: Bus16, y: Bus16, c: AluControl, out: Bus16)
    requires
        c.f.as_bool() ==> bus16_val(out) == alu_add_val(bus16_val(x), bus16_val(y), c),
        !c.f.as_bool() ==> alu_and_bits(out, x, y, c),
    ensures
        (c.zx.as_bool() && !c.nx.as_bool() && c.zy.as_bool() && !c.ny.as_bool() && c.f.as_bool()
            && !c.no.as_bool()) ==> bus16_val(out) == 0,
        (c.zx.as_bool() && c.nx.as_bool() && c.zy.as_bool() && c.ny.as_bool() && c.f.as_bool()
            && c.no.as_bool()) ==> bus16_val(out) == 1,
        (c.zx.as_bool() && c.nx.as_bool() && c.zy.as_bool() && !c.ny.as_bool() && c.f.as_bool()
            && !c.no.as_bool()) ==> bus16_val(out) == 65535,
        (!c.zx.as_bool() && !c.nx.as_bool() && c.zy.as_bool() && c.ny.as_bool() && !c.f.as_bool()
            && !c.no.as_bool()) ==> bus16_val(out) == bus16_val(x),
        (c.zx.as_bool() && c.nx.as_bool() && !c.zy.as_bool() && !c.ny.as_bool() && !c.f.as_bool()
            && !c.no.as_bool()) ==> bus16_val(out) == bus16_val(y),
        (!c.zx.as_bool() && !c.nx.as_bool() && c.zy.as_bool() && c.ny.as_bool() && !c.f.as_bool()
            && c.no.as_bool()) ==> bus16_val(out) == 65535 - bus16_val(x),
        (c.zx.as_bool() && c.nx.as_bool() && !c.zy.as_bool() && !c.ny.as_bool() && !c.f.as_bool()
            && c.no.as_bool()) ==> bus16_val(out) == 65535 - bus16_val(y),
        (!c.zx.as_bool() && !c.nx.as_bool() && c.zy.as_bool() && c.ny.as_bool() && c.f.as_bool()
            && c.no.as_bool()) ==> bus16_val(out) == (0 - bus16_val(x)) % 65536,
        (c.zx.as_bool() && c.nx.as_bool() && !c.zy.as_bool() && !c.ny.as_bool() && c.f.as_bool()
            && c.no.as_bool()) ==> bus16_val(out) == (0 - bus16_val(y)) % 65536,
        (!c.zx.as_bool() && c.nx.as_bool() && c.zy.as_bool() && c.ny.as_bool() && c.f.as_bool()
            && c.no.as_bool()) ==> bus16_val(out) == (bus16_val(x) + 1) % 65536,
        (c.zx.as_bool() && c.nx.as_bool() && !c.zy.as_bool() && c.ny.as_bool() && c.f.as_bool()
            && c.no.as_bool()) ==> bus16_val(out) == (bus16_val(y) + 1) % 65536,
        (!c.zx.as_bool() && !c.nx.as_bool() && c.zy.as_bool() && c.ny.as_bool() && c.f.as_bool()
            && !c.no.as_bool()) ==> bus16_val(out) == (bus16_val(x) - 1) % 65536,
        (c.zx.as_bool() && c.nx.as_bool() && !c.zy.as_bool() && !c.ny.as_bool() && c.f.as_bool()
            && !c.no.as_bool()) ==> bus16_val(out) == (bus16_val(y) - 1) % 65536,
        (!c.zx.as_bool() && !c.nx.as_bool() && !c.zy.as_bool() && !c.ny.as_bool() && c.f.as_bool()
            && !c.no.as_bool()) ==> bus16_val(out) == (bus16_val(x) + bus16_val(y)) % 65536,
        (!c.zx.as_bool() && c.nx.as_bool() && !c.zy.as_bool() && !c.ny.as_bool() && c.f.as_bool()
            && c.no.as_bool()) ==> bus16_val(out) == (bus16_val(x) - bus16_val(y)) % 65536,
        (!c.zx.as_bool() && !c.nx.as_bool() && !c.zy.as_bool() && c.ny.as_bool() && c.f.as_bool()
            && c.no.as_bool()) ==> bus16_val(out) == (bus16_val(y) - bus16_val(x)) % 65536,
        (!c.zx.as_bool() && !c.nx.as_bool() && !c.zy.as_bool() && !c.ny.as_bool() && !c.f.as_bool()
            && !c.no.as_bool()) ==> forall|i: int|
            0 <= i < 16 ==> out[i].as_bool() == (x[i].as_bool() && y[i].as_bool()),
        (!c.zx.as_bool() && c.nx.as_bool() && !c.zy.as_bool() && c.ny.as_bool() && !c.f.as_bool()
            && c.no.as_bool()) ==> forall|i: int|
            0 <= i < 16 ==> out[i].as_bool() == (x[i].as_bool() || y[i].as_bool()),
{
    let vx = bus16_val(x);
    let vy = bus16_val(y);
    bus16::lemma_val_bound(x);
    bus16::lemma_val_bound(y);
    if c.f.as_bool() {
        let sx = stage_val(vx, c.zx, c.nx);
        let sy = stage_val(vy, c.zy, c.ny);
        lemma_mod_reduce(sx + sy);
        lemma_mod_reduce(vx + vy);
        lemma_mod_reduce(vx + 1);
        lemma_mod_reduce(vy + 1);
        if vx > 0 {
            lemma_mod_reduce(vx - 1 + 65536);
            assert((vx - 1) % 65536 == vx - 1) by (nonlinear_arith)
                requires
                    0 < vx < 65536,
            ;
            assert((0 - vx) % 65536 == 65536 - vx) by (nonlinear_arith)
                requires
                    0 < vx < 65536,
            ;
        } else {
            assert((vx - 1) % 65536 == 65535) by (nonlinear_arith)
                requires
                    vx == 0,
            ;
            assert((0 - vx) % 65536 == 0) by (nonlinear_arith)
                requires
                    vx == 0,
            ;
        }
        if vy > 0 {
            assert((vy - 1) % 65536 == vy - 1) by (nonlinear_arith)
                requires
                    0 < vy < 65536,
            ;
            assert((0 - vy) % 65536 == 65536 - vy) by (nonlinear_arith)
                requires
                    0 < vy < 65536,
            ;
        } else {
            assert((vy - 1) % 65536 == 65535) by (nonlinear_arith)
                requires
                    vy == 0,
            ;
            assert((0 - vy) % 65536 == 0) by (nonlinear_arith)
                requires
                    vy == 0,
            ;
        }
        if vy <= vx {
            assert((vx - vy) % 65536 == vx - vy) by (nonlinear_arith)
                requires
                    0 <= vx - vy < 65536,
            ;
            assert((vy - vx) % 65536 == vy - vx + 65536 || vy == vx) by (nonlinear_arith)
                requires
                    -65536 < vy - vx <= 0,
            ;
        } else {
            assert((vx - vy) % 65536 == vx - vy + 65536) by (nonlinear_arith)
                requires
                    -65536 < vx - vy < 0,
            ;
            assert((vy - vx) % 65536 == vy - vx) by (nonlinear_arith)
                requires
                    0 < vy - vx < 65536,
            ;
        }
        lemma_mod_reduce(vx + 65535);
        lemma_mod_reduce(vy + 65535);
        lemma_mod_reduce(65535 - vx + vy);
        lemma_mod_reduce(65535 - vy + vx);
        lemma_mod_reduce(131070 - vx);
        lemma_mod_reduce(131070 - vy);
    } else {
        assert(forall|i: int|
            0 <= i < 16 ==> out[i].as_bool() == alu_and_bit(x[i].as_bool(), y[i].as_bool(), c));
        if !c.zx.as_bool() && !c.nx.as_bool() && c.zy.as_bool() && c.ny.as_bool()
            && !c.no.as_bool() {
            assert forall|i: int| 0 <= i < 16 implies out[i].as_bool() == x[i].as_bool() by {
                assert(out[i].as_bool() == alu_and_bit(x[i].as_bool(), y[i].as_bool(), c));
            }
            bus16::lemma_val_eq_bools(out, x);
        }
        if c.zx.as_bool() && c.nx.as_bool() && !c.zy.as_bool() && !c.ny.as_bool()
            && !c.no.as_bool() {
            assert forall|i: int| 0 <= i < 16 implies out[i].as_bool() == y[i].as_bool() by {
                assert(out[i].as_bool() == alu_and_bit(x[i].as_bool(), y[i].as_bool(), c));
            }
            bus16::lemma_val_eq_bools(out, y);
        }
        if !c.zx.as_bool() && !c.nx.as_bool() && c.zy.as_bool() && c.ny.as_bool()
            && c.no.as_bool() {
            assert forall|i: int| 0 <= i < 16 implies out[i].as_bool() == !x[i].as_bool() by {
                assert(out[i].as_bool() == alu_and_bit(x[i].as_bool(), y[i].as_bool(), c));
            }
            bus16::lemma_val_not(x, out);
        }
        if c.zx.as_bool() && c.nx.as_bool() && !c.zy.as_bool() && !c.ny.as_bool()
            && c.no.as_bool() {
            assert forall|i: int| 0 <= i < 16 implies out[i].as_bool() == !y[i].as_bool() by {
                assert(out[i].as_bool() == alu_and_bit(x[i].as_bool(), y[i].as_bool(), c));
            }
            bus16::lemma_val_not(y, out);
        }
        if !c.zx.as_bool() && c.nx.as_bool() && !c.zy.as_bool() && c.ny.as_bool()
            && c.no.as_bool() {
            assert forall|i: int| 0 <= i < 16 implies out[i].as_bool() == (x[i].as_bool()
                || y[i].as_bool()) by {
                assert(out[i].as_bool() == alu_and_bit(x[i].as_bool(), y[i].as_bool(), c));
            }
        }
    }
}

} // verus!
