//! The assembler's symbolic instruction forms: an instruction still naming a
//! symbol, and a label line.

use vstd::prelude::*;

use crate::computer::instruction;

verus! {

/// One assembly instruction: an A-instruction, possibly naming a symbol, or
/// a C-instruction.
pub enum AsmInst {
    A(A),
    C(instruction::Computation),
}

/// The address field of an A-instruction: a decimal literal or a symbol.
pub enum A {
    Const(i32),
    Var(String),
}

/// A C-instruction as a plain triple.
pub struct C(pub instruction::Dest, pub Calc, pub instruction::Jump);

impl C {
    /// Packs the three fields of a C-instruction.
    pub fn new(dest: instruction::Dest, calc: Calc, jump: instruction::Jump) -> (r: C)
        ensures
            r.0 == dest,
            r.1 == calc,
            r.2 == jump,
    {
        C(dest, calc, jump)
    }
}

/// Every computation mnemonic the assembler can read, with the A- and
/// M-sourced variants spelled apart.
pub enum Calc {
    Zero,
    One,
    MinusOne,
    D,
    A,
    NotD,
    NotA,
    MinusD,
    MinusA,
    DPlus1,
    APlus1,
    DMinus1,
    AMinus1,
    DPlusA,
    DMinusA,
    AMinusD,
    DAndA,
    DOrA,
    M,
    NotM,
    MinusM,
    MPlus1,
    MMinus1,
    DPlusM,
    DMinusM,
    MMinusD,
    DAndM,
    DOrM,
}

/// A label line: the symbol between the parentheses.
pub struct Label(pub String);

} // verus!
