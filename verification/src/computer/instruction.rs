//! The symbolic instruction set and its encoding into sixteen-bit words.
//!
//! Bit 0 distinguishes the two formats: an A-instruction (bit 0 low) carries
//! a fifteen-bit value for the address register; a C-instruction (bit 0 high)
//! carries the ALU control bits, a destination mask and a jump mask.

use vstd::prelude::*;

use crate::gates::bus16;
use crate::gates::bus16::Bus16;
use crate::primitive::Bit;

verus! {

/// A machine instruction: load a value into A, or compute.
pub enum Instruction {
    A(i32),
    C(Computation),
}

/// The three fields of a C-instruction.
#[derive(Clone, Copy)]
pub struct Computation {
    pub comp: (CompReg, Comp),
    pub dest: Dest,
    pub jump: Jump,
}

/// The ALU's second operand: the address register itself or the memory word
/// it addresses.
#[derive(Clone, Copy)]
pub enum CompReg {
    A,
    M,
}

/// The eighteen computations the ALU offers; `A` stands for the second
/// operand, which `CompReg` resolves to A or M.
#[derive(Clone, Copy)]
pub enum Comp {
    Zero,
    One,
    MinusOne,
    D,
    A,
    NotD,
    NotA,
    MinusD,
    MinusA,
    DPlus1,
    APlus1,
    DMinus1,
    AMinus1,
    DPlusA,
    DMinusA,
    AMinusD,
    DAndA,
    DOrA,
}

/// The jump condition of a C-instruction, judged against the ALU result.
#[derive(Clone, Copy)]
pub enum Jump {
    NoJump,
    Eq,
    NEq,
    Ne,
    Lt,
    Le,
    Gt,
    Ge,
    Always,
}

/// The destination mask of a C-instruction: which registers take the result.
#[derive(Clone, Copy, Eq, PartialEq, Structural)]
pub enum Dest {
    NoDest,
    A,
    D,
    M,
    AD,
    AM,
    DM,
    ADM,
}

/// Whether the destination mask includes the address register.
pub open spec fn dest_has_a(d: Dest) -> bool {
    d is A || d is AD || d is AM || d is ADM
}

/// Whether the destination mask includes the data register.
pub open spec fn dest_has_d(d: Dest) -> bool {
    d is D || d is AD || d is DM || d is ADM
}

/// Whether the destination mask includes the memory word.
pub open spec fn dest_has_m(d: Dest) -> bool {
    d is M || d is AM || d is DM || d is ADM
}

/// Whether the jump mask includes the less-than case.
pub open spec fn jump_has_lt(j: Jump) -> bool {
    j is Lt || j is Le || j is Ne || j is NEq || j is Always
}

/// Whether the jump mask includes the equal case.
pub open spec fn jump_has_eq(j: Jump) -> bool {
    j is Eq || j is Le || j is Ge || j is Always
}

/// Whether the jump mask includes the greater-than case.
pub open spec fn jump_has_gt(j: Jump) -> bool {
    j is Gt || j is Ge || j is Ne || j is NEq || j is Always
}

/// The six ALU control bits for a computation mnemonic, in the order
/// zx, nx, zy, ny, f, no.
pub open spec fn comp_ctrl(c: Comp) -> (bool, bool, bool, bool, bool, bool) {
    match c {
        Comp::Zero => (true, false, true, false, true, false),
        Comp::One => (true, true, true, true, true, true),
        Comp::MinusOne => (true, true, true, false, true, false),
        Comp::D => (false, false, true, true, false, false),
        Comp::A => (true, true, false, false, false, false),
        Comp::NotD => (false, false, true, true, false, true),
        Comp::NotA => (true, true, false, false, false, true),
        Comp::MinusD => (false, false, true, true, true, true),
        Comp::MinusA => (true, true, false, false, true, true),
        Comp::DPlus1 => (false, true, true, true, true, true),
        Comp::APlus1 => (true, true, false, true, true, true),
        Comp::DMinus1 => (false, false, true, true, true, false),
        Comp::AMinus1 => (true, true, false, false, true, false),
        Comp::DPlusA => (false, false, false, false, true, false),
        Comp::DMinusA => (false, true, false, false, true, true),
        Comp::AMinusD => (false, false, false, true, true, true),
        Comp::DAndA => (false, false, false, false, false, false),
        Comp::DOrA => (false, true, false, true, false, true),
    }
}

/// Whether the word `r` is the encoding of the instruction: an
/// A-instruction carries its value's low bits behind a low bit 0, and a
/// C-instruction carries its three fields behind three high bits.
pub open spec fn encodes(r: Bus16, ins: Instruction) -> bool {
    &&& (ins is A ==> forall|b: int|
        0 <= b < 16 ==> r[b].as_bool() == (ins->A_0 & (1i32 << ((15 - b) as i32)) != 0))
    &&& (ins is C ==> {
        let c = ins->C_0;
        r[0].as_bool() && r[1].as_bool() && r[2].as_bool() && r[3].as_bool() == (c.comp.0
            is M) && r[4].as_bool() == comp_ctrl(c.comp.1).0 && r[5].as_bool() == comp_ctrl(
            c.comp.1,
        ).1 && r[6].as_bool() == comp_ctrl(c.comp.1).2 && r[7].as_bool() == comp_ctrl(
            c.comp.1,
        ).3 && r[8].as_bool() == comp_ctrl(c.comp.1).4 && r[9].as_bool() == comp_ctrl(
            c.comp.1,
        ).5 && r[10].as_bool() == dest_has_a(c.dest) && r[11].as_bool() == dest_has_d(c.dest)
            && r[12].as_bool() == dest_has_m(c.dest) && r[13].as_bool() == jump_has_lt(c.jump)
            && r[14].as_bool() == jump_has_eq(c.jump) && r[15].as_bool() == jump_has_gt(c.jump)
    })
}

impl Instruction {
    /// Encodes the instruction as a sixteen-bit word, bit 0 most significant.
    pub fn bus16(&self) -> (r: Bus16)
        ensures
            encodes(r, *self),
    {
        match self {
            Instruction::A(i) => bus16::make_bus16(*i),
            Instruction::C(c) => {
                let a = match c.comp.0 {
                    CompReg::A => Bit::Negative,
                    CompReg::M => Bit::Positive,
                };
                let x = comp_bits(&c.comp.1);
                let d1 = make_flag(matches!(c.dest, Dest::A | Dest::AD | Dest::AM | Dest::ADM));
                let d2 = make_flag(matches!(c.dest, Dest::D | Dest::AD | Dest::DM | Dest::ADM));
                let d3 = make_flag(matches!(c.dest, Dest::M | Dest::AM | Dest::DM | Dest::ADM));
                let j1 = make_flag(
                    matches!(c.jump, Jump::Lt | Jump::Le | Jump::Ne | Jump::NEq | Jump::Always),
                );
                let j2 = make_flag(matches!(c.jump, Jump::Eq | Jump::Le | Jump::Ge | Jump::Always));
                let j3 = make_flag(
                    matches!(c.jump, Jump::Gt | Jump::Ge | Jump::Ne | Jump::NEq | Jump::Always),
                );
                [
                    Bit::Positive,
                    Bit::Positive,
                    Bit::Positive,
                    a,
                    x[0],
                    x[1],
                    x[2],
                    x[3],
                    x[4],
                    x[5],
                    d1,
                    d2,
                    d3,
                    j1,
                    j2,
                    j3,
                ]
            },
        }
    }
}

/// The high bit when the flag holds, the low bit otherwise.
fn make_flag(b: bool) -> (r: Bit)
    ensures
        r.as_bool() == b,
{
    if b {
        Bit::Positive
    } else {
        Bit::Negative
    }
}

/// The six ALU control bits of a computation mnemonic, as signals.
fn comp_bits(c: &Comp) -> (r: [Bit; 6])
    ensures
        r[0].as_bool() == comp_ctrl(*c).0,
        r[1].as_bool() == comp_ctrl(*c).1,
        r[2].as_bool() == comp_ctrl(*c).2,
        r[3].as_bool() == comp_ctrl(*c).3,
        r[4].as_bool() == comp_ctrl(*c).4,
        r[5].as_bool() == comp_ctrl(*c).5,
{
    let (p, n) = (Bit::Positive, Bit::Negative);
    match c {
        Comp::Zero => [p, n, p, n, p, n],
        Comp::One => [p, p, p, p, p, p],
        Comp::MinusOne => [p, p, p, n, p, n],
        Comp::D => [n, n, p, p, n, n],
        Comp::A => [p, p, n, n, n, n],
        Comp::NotD => [n, n, p, p, n, p],
        Comp::NotA => [p, p, n, n, n, p],
        Comp::MinusD => [n, n, p, p, p, p],
        Comp::MinusA => [p, p, n, n, p, p],
        Comp::DPlus1 => [n, p, p, p, p, p],
        Comp::APlus1 => [p, p, n, p, p, p],
        Comp::DMinus1 => [n, n, p, p, p, n],
        Comp::AMinus1 => [p, p, n, n, p, n],
        Comp::DPlusA => [n, n, n, n, p, n],
        Comp::DMinusA => [n, p, n, n, p, p],
        Comp::AMinusD => [n, n, n, p, p, p],
        Comp::DAndA => [n, n, n, n, n, n],
        Comp::DOrA => [n, p, n, p, n, p],
    }
}

} // verus!
