//! The CPU: the A, D and PC registers wired to the ALU with the Hack
//! instruction-decode and jump logic.

use vstd::prelude::*;

use crate::gates::adder::{alu, alu_add_val, alu_and_bits, inc16, AluControl};
use crate::gates::bit;
use crate::gates::bus16;
use crate::gates::bus16::{bus15_val, bus16_val, Bus16};
use crate::infrastructure::{SequentialCircuit, Zero};
use crate::primitive::Bit;
use crate::sequential::register::{Register16, Register16Input};

verus! {

/// The CPU's input lines for one tick: the memory word at the current
/// address, the instruction word, and the reset line.
pub struct CpuInput {
    pub in_m: Bus16,
    pub instruction: Bus16,
    pub reset: Bit,
}

/// The CPU's outputs: the ALU result, the memory write enable, the current
/// address-register word, and the low fifteen bits of the current program
/// counter.
pub struct CpuOutput {
    pub out_m: Bus16,
    pub write_m: Bit,
    pub address_m: Bus16,
    pub pc: [Bit; 15],
}

/// The CPU: data register, address register, program counter.
pub struct Cpu {
    pub d: Register16,
    pub a: Register16,
    pub pc: Register16,
}

/// The ALU's second operand this tick: the memory word when the instruction's
/// `a` bit is set, else the address register.
pub open spec fn cpu_y(pre: Cpu, input: CpuInput) -> Bus16 {
    if input.instruction[3].as_bool() {
        input.in_m
    } else {
        pre.a.bits
    }
}

/// The ALU control bits carried in instruction bits 4 through 9.
pub open spec fn cpu_ctrl(ins: Bus16) -> AluControl {
    AluControl { zx: ins[4], nx: ins[5], zy: ins[6], ny: ins[7], f: ins[8], no: ins[9] }
}

/// Whether the jump mask of the instruction accepts the ALU result: less
/// than, equal and greater than each have their own mask bit.
pub open spec fn jump_cond(ins: Bus16, out: Bus16) -> bool {
    let ng = out[0].as_bool();
    let zr = bus16_val(out) == 0;
    (ins[13].as_bool() && ng) || (ins[14].as_bool() && zr) || (ins[15].as_bool() && !(ng || zr))
}

/// One CPU tick in full: what the outputs carry and how the three registers
/// move, for a pre-state, an input, the outputs and the post-state.
pub open spec fn cpu_step(pre: Cpu, input: CpuInput, o: CpuOutput, post: Cpu) -> bool {
    let ins = input.instruction;
    let c = ins[0].as_bool();
    &&& (ins[8].as_bool() ==> bus16_val(o.out_m) == alu_add_val(
        pre.d.value(),
        bus16_val(cpu_y(pre, input)),
        cpu_ctrl(ins),
    ))
    &&& (!ins[8].as_bool() ==> alu_and_bits(o.out_m, pre.d.bits, cpu_y(pre, input), cpu_ctrl(ins)))
    &&& o.write_m.as_bool() == (c && ins[12].as_bool())
    &&& o.address_m == pre.a.bits
    &&& bus15_val(o.pc) == pre.pc.value() % 32768
    &&& post.d.bits == if c && ins[11].as_bool() {
        o.out_m
    } else {
        pre.d.bits
    }
    &&& post.a.bits == if !c {
        ins
    } else if ins[10].as_bool() {
        o.out_m
    } else {
        pre.a.bits
    }
    &&& post.pc.value() == if input.reset.as_bool() {
        0int
    } else if c && jump_cond(ins, o.out_m) {
        pre.a.value()
    } else {
        (pre.pc.value() + 1) % 65536
    }
}

impl SequentialCircuit for Cpu {
    type Input = CpuInput;

    type Output = CpuOutput;

    /// One clock tick of the CPU; `cpu_step` spells out everything it does.
    #[verifier::spinoff_prover]
    #[verifier::rlimit(100)]
    fn tick(&self, input: &CpuInput) -> (r: (CpuOutput, Cpu))
        ensures
            cpu_step(*self, *input, r.0, r.1),
    {
        let ins = &input.instruction;
        let c = ins[0];
        let y = bus16::mux(&self.a.bits, &input.in_m, ins[3]);
        let r_alu = alu(
            &self.d.bits,
            &y,
            AluControl { zx: ins[4], nx: ins[5], zy: ins[6], ny: ins[7], f: ins[8], no: ins[9] },
        );
        let ps = bit::not(bit::or(r_alu.zr, r_alu.ng));
        let jj1 = bit::and(ins[13], r_alu.ng);
        let jj2 = bit::and(ins[14], r_alu.zr);
        let jj3 = bit::and(ins[15], ps);
        let jump = bit::or(bit::or(jj1, jj2), jj3);
        let cond = bit::and(jump, c);
        let inc = inc16(&self.pc.bits);
        let pc_cand = bus16::mux(&inc, &self.a.bits, cond);
        let zeros = bus16::fill(Bit::Negative);
        let pc_in = bus16::mux(&pc_cand, &zeros, input.reset);
        let d_load = bit::and(ins[11], c);
        let td = self.d.tick(&Register16Input { input: r_alu.out, load: d_load });
        let a_in = bus16::mux(&input.instruction, &r_alu.out, c);
        let a_load = bit::or(ins[10], bit::not(c));
        let ta = self.a.tick(&Register16Input { input: a_in, load: a_load });
        let tp = self.pc.tick(&Register16Input { input: pc_in, load: Bit::Positive });
        let pc_out = bus16::into_bus15(&self.pc.bits);
        let o = CpuOutput {
            out_m: r_alu.out,
            write_m: bit::and(ins[12], ins[0]),
            address_m: self.a.bits,
            pc: pc_out,
        };
        let next = Cpu { d: td.1, a: ta.1, pc: tp.1 };
        proof {
            bus16::lemma_mux_picks(y, self.a.bits, input.in_m, ins[3]);
            bus16::lemma_mux_picks(a_in, input.instruction, r_alu.out, c);
            bus16::lemma_val_mux(pc_cand, inc, self.a.bits, cond);
            bus16::lemma_val_mux(pc_in, pc_cand, zeros, input.reset);
            bus16::lemma_low15(pc_out, self.pc.bits);
            assert(cpu_ctrl(input.instruction) == AluControl {
                zx: ins[4],
                nx: ins[5],
                zy: ins[6],
                ny: ins[7],
                f: ins[8],
                no: ins[9],
            });
        }
        (o, next)
    }
}

impl Cpu {
    /// The data register's current word; for inspection.
    pub fn peek_data(&self) -> (r: Bus16)
        ensures
            r == self.d.bits,
    {
        self.d.bits
    }

    /// The address register's current word; for inspection.
    pub fn peek_address(&self) -> (r: Bus16)
        ensures
            r == self.a.bits,
    {
        self.a.bits
    }

    /// The program counter's current fifteen-bit value, zero-extended to a
    /// bus; for inspection. The counter addresses the 32K ROM, so only its
    /// low fifteen bits are meaningful.
    pub fn peek_pc(&self) -> (r: Bus16)
        ensures
            bus16_val(r) == self.pc.value() % 32768,
            !r[0].as_bool(),
    {
        let p = bus16::into_bus15(&self.pc.bits);
        let r_out: Bus16 = [
            Bit::Negative,
            p[0],
            p[1],
            p[2],
            p[3],
            p[4],
            p[5],
            p[6],
            p[7],
            p[8],
            p[9],
            p[10],
            p[11],
            p[12],
            p[13],
            p[14],
        ];
        proof {
            bus16::lemma_low15(p, self.pc.bits);
            assert(bus16_val(r_out) == crate::gates::bus16::bus15_val(p) && !r_out[0].as_bool())
                by {
                reveal(crate::gates::bus16::bitv);
                reveal(crate::gates::bus16::bus16_val);
            }
        }
        r_out
    }
}

impl Zero for Cpu {
    fn new() -> (r: Cpu)
        ensures
            r.d.value() == 0,
            r.a.value() == 0,
            r.pc.value() == 0,
    {
        Cpu { d: Register16::new(), a: Register16::new(), pc: Register16::new() }
    }
}


/// The jump table: for every jump mask and every pair of ALU flags, the
/// condition the CPU takes is the mask applied to the flags — bit 13 accepts
/// a negative result, bit 14 a zero one, bit 15 a positive one.
pub proof fn lemma_jump_table(ins: Bus16, out: Bus16)
    ensures
        jump_cond(ins, out) == ((ins[13].as_bool() && out[0].as_bool()) || (ins[14].as_bool() && (
        bus16_val(out) == 0)) || (ins[15].as_bool() && !(out[0].as_bool() || bus16_val(out)
            == 0))),
{
}

} // verus!
