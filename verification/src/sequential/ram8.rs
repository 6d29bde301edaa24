//! An eight-word memory: eight sixteen-bit registers behind a demultiplexed
//! `load` line and an eight-way output multiplexer. One three-bit address bus
//! serves reads and writes alike.

use vstd::prelude::*;

use crate::gates::bit;
use crate::gates::bit::bus3_val;
use crate::gates::bus16::{bus16_val, mux8way16, Bus16};
use crate::gates::bus3::Bus3;
use crate::infrastructure::{SequentialCircuit, Zero};
use crate::sequential::register::{Register16, Register16Input};

verus! {

/// Eight sixteen-bit registers with one shared address bus.
pub struct Ram8 {
    pub regs: [Register16; 8],
}

/// The input lines of the eight-word memory.
pub struct Ram8Input {
    pub input: Bus16,
    pub address: Bus3,
    pub load: Bit,
}

use crate::primitive::Bit;

impl Ram8 {
    /// The eight stored words, by address.
    pub open spec fn words(self) -> Seq<Bus16> {
        seq![
            self.regs[0].bits,
            self.regs[1].bits,
            self.regs[2].bits,
            self.regs[3].bits,
            self.regs[4].bits,
            self.regs[5].bits,
            self.regs[6].bits,
            self.regs[7].bits,
        ]
    }

    /// The memory holds exactly eight words.
    pub proof fn words_len(self)
        ensures
            self.words().len() == 8,
    {
    }
}

impl SequentialCircuit for Ram8 {
    type Input = Ram8Input;

    type Output = Bus16;

    /// Reads the addressed word; when `load` is high the input word replaces
    /// it after the clock edge, and no other word changes.
    fn tick(&self, input: &Ram8Input) -> (r: (Bus16, Ram8))
        ensures
            r.0 == self.words()[bus3_val(input.address)],
            input.load.as_bool() ==> r.1.words() =~= self.words().update(
                bus3_val(input.address),
                input.input,
            ),
            !input.load.as_bool() ==> r.1.words() =~= self.words(),
    {
        let loads = bit::dmux8way(input.load, &input.address);
        let t0 = self.regs[0].tick(&Register16Input { input: input.input, load: loads[0] });
        let t1 = self.regs[1].tick(&Register16Input { input: input.input, load: loads[1] });
        let t2 = self.regs[2].tick(&Register16Input { input: input.input, load: loads[2] });
        let t3 = self.regs[3].tick(&Register16Input { input: input.input, load: loads[3] });
        let t4 = self.regs[4].tick(&Register16Input { input: input.input, load: loads[4] });
        let t5 = self.regs[5].tick(&Register16Input { input: input.input, load: loads[5] });
        let t6 = self.regs[6].tick(&Register16Input { input: input.input, load: loads[6] });
        let t7 = self.regs[7].tick(&Register16Input { input: input.input, load: loads[7] });
        let out = mux8way16(
            &t0.0,
            &t1.0,
            &t2.0,
            &t3.0,
            &t4.0,
            &t5.0,
            &t6.0,
            &t7.0,
            &input.address,
        );
        let next = Ram8 { regs: [t0.1, t1.1, t2.1, t3.1, t4.1, t5.1, t6.1, t7.1] };
        proof {
            crate::gates::bus16::lemma_mux8way_picks(
                out,
                t0.0,
                t1.0,
                t2.0,
                t3.0,
                t4.0,
                t5.0,
                t6.0,
                t7.0,
                input.address,
            );
            assert(0 <= bus3_val(input.address) < 8) by {
                reveal(crate::gates::bus16::bitv);
            }
            assert(next.regs[0] == t0.1);
            assert(next.regs[1] == t1.1);
            assert(next.regs[2] == t2.1);
            assert(next.regs[3] == t3.1);
            assert(next.regs[4] == t4.1);
            assert(next.regs[5] == t5.1);
            assert(next.regs[6] == t6.1);
            assert(next.regs[7] == t7.1);
        }
        (out, next)
    }
}

impl Zero for Ram8 {
    fn new() -> (r: Ram8)
        ensures
            forall|j: int| 0 <= j < 8 ==> bus16_val(#[trigger] r.words()[j]) == 0,
    {
        Ram8 {
            regs: [
                Register16::new(),
                Register16::new(),
                Register16::new(),
                Register16::new(),
                Register16::new(),
                Register16::new(),
                Register16::new(),
                Register16::new(),
            ],
        }
    }
}

} // verus!
