//! One-bit and sixteen-bit registers: write the input when `load` is high,
//! else hold the stored value. The output is always the value stored before
//! the tick.

use vstd::prelude::*;

use crate::gates::bit;
use crate::gates::bus16;
use crate::gates::bus16::{bus16_val, Bus16};
use crate::infrastructure::{Dff, SequentialCircuit, Zero};
use crate::primitive::Bit;

verus! {

/// A one-bit register: a flip-flop whose next input is multiplexed between
/// the held bit and the external input by the `load` line.
pub struct Register {
    pub dff: Dff,
}

/// The input lines of a one-bit register.
pub struct RegisterInput {
    pub input: Bit,
    pub load: Bit,
}

impl Register {
    /// The bit the register holds.
    pub open spec fn stored(self) -> Bit {
        self.dff.stored()
    }
}

impl SequentialCircuit for Register {
    type Input = RegisterInput;

    type Output = Bit;

    fn tick(&self, input: &RegisterInput) -> (r: (Bit, Register))
        ensures
            r.0 == self.stored(),
            r.1.stored().as_bool() == if input.load.as_bool() {
                input.input.as_bool()
            } else {
                self.stored().as_bool()
            },
    {
        let next = bit::mux(self.dff.bit, input.input, input.load);
        let (out, dff) = self.dff.tick(&next);
        (out, Register { dff })
    }
}

impl Zero for Register {
    fn new() -> (r: Register)
        ensures
            r.stored() == Bit::Negative,
    {
        Register { dff: Dff::new() }
    }
}

/// A sixteen-bit register: sixteen one-bit cells written atomically under one
/// `load` line.
pub struct Register16 {
    pub bits: Bus16,
}

/// The input lines of a sixteen-bit register.
pub struct Register16Input {
    pub input: Bus16,
    pub load: Bit,
}

impl Register16 {
    /// The unsigned value the register holds.
    pub open spec fn value(self) -> int {
        bus16_val(self.bits)
    }
}

impl SequentialCircuit for Register16 {
    type Input = Register16Input;

    type Output = Bus16;

    fn tick(&self, input: &Register16Input) -> (r: (Bus16, Register16))
        ensures
            r.0 == self.bits,
            bus16_val(r.0) == self.value(),
            r.1.bits == if input.load.as_bool() {
                input.input
            } else {
                self.bits
            },
            r.1.value() == if input.load.as_bool() {
                bus16_val(input.input)
            } else {
                self.value()
            },
    {
        let next = bus16::mux(&self.bits, &input.input, input.load);
        proof {
            bus16::lemma_mux_picks(next, self.bits, input.input, input.load);
        }
        (self.bits, Register16 { bits: next })
    }
}

impl Zero for Register16 {
    fn new() -> (r: Register16)
        ensures
            r.value() == 0,
    {
        let bits = [Bit::Negative; 16];
        proof {
            bus16::lemma_val_all_low(bits);
        }
        Register16 { bits }
    }
}

} // verus!
