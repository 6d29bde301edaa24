//! The whole machine: CPU, instruction ROM and data RAM joined into one
//! clocked computer.

use vstd::prelude::*;

use crate::computer::cpu::{cpu_step, Cpu, CpuInput, CpuOutput};
use crate::computer::memory::{DataMemoryInput, MutDataMemory, MutRom};
use crate::gates::bus16;
use crate::gates::bus16::{bus16_val, Bus16};
use crate::infrastructure::{MutSC, SequentialCircuit, Zero};
use crate::primitive::Bit;

verus! {

/// The machine: data memory, instruction ROM and CPU, ticked in place.
pub struct MutComputer {
    pub ram: MutDataMemory,
    pub rom: MutRom,
    pub cpu: Cpu,
}

/// One machine tick: the instruction at the program counter is fetched from
/// the ROM, the memory word at the address register is read, the CPU executes
/// the instruction, and its result is stored back when it asks for a write.
pub open spec fn computer_step(
    pre_cpu: Cpu,
    pre_ram: Seq<Bus16>,
    rom: Seq<Bus16>,
    post_cpu: Cpu,
    post_ram: Seq<Bus16>,
) -> bool {
    exists|o: CpuOutput|
        {
            &&& #[trigger] cpu_step(
                pre_cpu,
                CpuInput {
                    in_m: pre_ram[pre_cpu.a.value() % 8192],
                    instruction: rom[pre_cpu.pc.value() % 32768],
                    reset: Bit::Negative,
                },
                o,
                post_cpu,
            )
            &&& (o.write_m.as_bool() ==> post_ram =~= pre_ram.update(
                pre_cpu.a.value() % 8192,
                o.out_m,
            ))
            &&& (!o.write_m.as_bool() ==> post_ram =~= pre_ram)
        }
}

impl MutSC for MutComputer {
    type Input = ();

    type Output = ();

    /// Advances the machine one clock tick with the reset line low.
    fn tick(&mut self, _input: &()) -> ((): ())
        ensures
            computer_step(
                old(self).cpu,
                old(self).ram.words(),
                old(self).rom.words(),
                final (self).cpu,
                final (self).ram.words(),
            ),
            final (self).rom.words() == old(self).rom.words(),
    {
        let pc15 = bus16::into_bus15(&self.cpu.pc.bits);
        let a13 = bus16::into_bus13(&self.cpu.a.bits);
        proof {
            bus16::lemma_low15(pc15, self.cpu.pc.bits);
            bus16::lemma_low13(a13, self.cpu.a.bits);
        }
        let instruction = self.rom.tick(&pc15);
        let in_m = self.ram.tick(
            &DataMemoryInput {
                input: bus16::fill(Bit::Negative),
                load: Bit::Negative,
                address: a13,
            },
        );
        let t = self.cpu.tick(&CpuInput { in_m, instruction, reset: Bit::Negative });
        let o = t.0;
        self.cpu = t.1;
        self.ram.tick(&DataMemoryInput { input: o.out_m, load: o.write_m, address: a13 });
        proof {
            let pcv = old(self).cpu.pc.value() % 32768;
            let addr = old(self).cpu.a.value() % 8192;
            let input = CpuInput {
                in_m: old(self).ram.words()[addr],
                instruction: old(self).rom.words()[pcv],
                reset: Bit::Negative,
            };
            assert(cpu_step(old(self).cpu, input, o, self.cpu));
            assert(o.write_m.as_bool() ==> self.ram.words() =~= old(self).ram.words().update(
                addr,
                o.out_m,
            ));
            assert(!o.write_m.as_bool() ==> self.ram.words() =~= old(self).ram.words());
        }
    }
}

impl MutComputer {
    /// Builds a machine holding the given program, with every register,
    /// every data-memory word and every ROM word beyond the program zero.
    pub fn of(instructions: &Vec<Bus16>) -> (r: MutComputer)
        requires
            instructions.len() <= 32768,
        ensures
            r.rom.words().len() == 32768,
            forall|j: int| 0 <= j < instructions.len() ==> r.rom.words()[j] == instructions@[j],
            forall|j: int|
                instructions.len() <= j < 32768 ==> bus16_val(#[trigger] r.rom.words()[j]) == 0,
            r.ram.words().len() == 8192,
            forall|j: int| 0 <= j < 8192 ==> bus16_val(#[trigger] r.ram.words()[j]) == 0,
            r.cpu.d.value() == 0 && r.cpu.a.value() == 0 && r.cpu.pc.value() == 0,
    {
        MutComputer { rom: MutRom::of(instructions), ram: MutDataMemory::new(), cpu: Cpu::new() }
    }

    /// Reads the data-memory word at the given address; for inspection.
    pub fn peek_ram(&mut self, addr: i32) -> (r: i32)
        requires
            0 <= addr < 8192,
        ensures
            r == bus16_val(old(self).ram.words()[addr as int]),
            final (self).ram.words() =~= old(self).ram.words(),
            final (self).rom == old(self).rom,
            final (self).cpu == old(self).cpu,
    {
        let w = self.ram.peek(addr);
        bus16::into_i32(&w)
    }
}

} // verus!
