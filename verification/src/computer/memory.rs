//! The machine's two memories: a 32768-word instruction ROM, loaded once and
//! then read-only, and an 8192-word data memory, each two banks of the
//! next-smaller unit selected by the top address bit.

use vstd::prelude::*;

use crate::gates::bus16;
use crate::gates::bus16::{bitv, bus13_val, bus15_val, bus16_val, Bus16};
use crate::infrastructure::{MutSC, SequentialCircuit, Zero};
use crate::primitive::Bit;
use crate::sequential::banks::{lemma_two_banks_index, lemma_two_banks_update};
use crate::sequential::ram16k::{bus14_val, MutRam16k, Ram16kInput};
use crate::sequential::ram4k::{bus12_val, Ram4k, Ram4kInput};

verus! {

/// The instruction ROM: two 16384-word banks. After loading, its words never
/// change.
pub struct MutRom {
    pub banks: [MutRam16k; 2],
}

/// Splits a fifteen-bit address: the top bit picks the bank, the low
/// fourteen address a word inside it.
proof fn lemma_split15(a: [Bit; 15], lo: [Bit; 14])
    requires
        lo[0] == a[1] && lo[1] == a[2] && lo[2] == a[3] && lo[3] == a[4] && lo[4] == a[5] && lo[5]
            == a[6] && lo[6] == a[7] && lo[7] == a[8] && lo[8] == a[9] && lo[9] == a[10] && lo[10]
            == a[11] && lo[11] == a[12] && lo[12] == a[13] && lo[13] == a[14],
    ensures
        bus15_val(a) == 16384 * bitv(a[0]) + bus14_val(lo),
        0 <= bitv(a[0]) < 2,
        0 <= bus14_val(lo) < 16384,
{
    reveal(crate::gates::bus16::bitv);
}

impl MutRom {
    /// The 32768 stored words, by address.
    #[verifier::opaque]
    pub open spec fn words(self) -> Seq<Bus16> {
        self.banks[0].words() + self.banks[1].words()
    }

    /// The ROM holds exactly 32768 words.
    pub proof fn words_len(self)
        ensures
            self.words().len() == 32768,
    {
        reveal(MutRom::words);
        self.banks[0].words_len();
        self.banks[1].words_len();
    }

    /// Reads or writes one word: the shared address path of loading and
    /// fetching.
    fn access(&mut self, a: &[Bit; 15], input: &Bus16, load: Bit) -> (r: Bus16)
        ensures
            r == old(self).words()[bus15_val(*a)],
            load.as_bool() ==> final (self).words() =~= old(self).words().update(
                bus15_val(*a),
                *input,
            ),
            !load.as_bool() ==> final (self).words() =~= old(self).words(),
    {
        let lo = [
            a[1],
            a[2],
            a[3],
            a[4],
            a[5],
            a[6],
            a[7],
            a[8],
            a[9],
            a[10],
            a[11],
            a[12],
            a[13],
            a[14],
        ];
        let inner = Ram16kInput { input: *input, address: lo, load };
        proof {
            lemma_split15(*a, lo);
        }
        let bank: usize = match a[0] {
            Bit::Negative => 0,
            Bit::Positive => 1,
        };
        proof {
            assert(bank == bitv(a[0])) by {
                reveal(crate::gates::bus16::bitv);
            }
        }
        let out = if bank == 0 {
            self.banks[0].tick(&inner)
        } else {
            self.banks[1].tick(&inner)
        };
        proof {
            reveal(MutRom::words);
            old(self).banks[0].words_len();
            old(self).banks[1].words_len();
            let h = bitv(a[0]);
            let l = bus14_val(lo);
            lemma_two_banks_index(
                old(self).banks[0].words(),
                old(self).banks[1].words(),
                16384,
                h,
                l,
            );
            if load.as_bool() {
                lemma_two_banks_update(
                    old(self).banks[0].words(),
                    old(self).banks[1].words(),
                    self.banks[0].words(),
                    self.banks[1].words(),
                    16384,
                    h,
                    l,
                    *input,
                );
            }
        }
        out
    }

    /// Builds a ROM holding the given program from address 0 up, zeros
    /// beyond it.
    pub fn of(instructions: &Vec<Bus16>) -> (r: MutRom)
        requires
            instructions.len() <= 32768,
        ensures
            r.words().len() == 32768,
            forall|j: int| 0 <= j < instructions.len() ==> r.words()[j] == instructions@[j],
            forall|j: int|
                instructions.len() <= j < 32768 ==> bus16_val(#[trigger] r.words()[j]) == 0,
    {
        let mut rom = MutRom { banks: [MutRam16k::new(), MutRam16k::new()] };
        proof {
            rom.words_len();
            reveal(MutRom::words);
            assert forall|j: int| 0 <= j < 32768 implies bus16_val(#[trigger] rom.words()[j])
                == 0 by {
                rom.banks[0].words_len();
                rom.banks[1].words_len();
                lemma_two_banks_index(
                    rom.banks[0].words(),
                    rom.banks[1].words(),
                    16384,
                    j / 16384,
                    j % 16384,
                );
                vstd::arithmetic::div_mod::lemma_fundamental_div_mod(j, 16384);
            }
        }
        let mut k: usize = 0;
        while k < instructions.len()
            invariant
                0 <= k <= instructions.len() <= 32768,
                rom.words().len() == 32768,
                forall|j: int| 0 <= j < k ==> rom.words()[j] == instructions@[j],
                forall|j: int| k <= j < 32768 ==> bus16_val(#[trigger] rom.words()[j]) == 0,
            decreases instructions.len() - k,
        {
            let counter = bus16::make_bus16(k as i32);
            let a15 = bus16::into_bus15(&counter);
            proof {
                bus16::lemma_make_val(counter, k as i32);
                bus16::lemma_low15(a15, counter);
            }
            rom.access(&a15, &instructions[k], Bit::Positive);
            k = k + 1;
        }
        rom
    }
}

impl MutSC for MutRom {
    type Input = [Bit; 15];

    type Output = Bus16;

    /// Fetches the addressed word; the ROM never changes.
    fn tick(&mut self, a: &[Bit; 15]) -> (r: Bus16)
        ensures
            r == old(self).words()[bus15_val(*a)],
            final (self).words() =~= old(self).words(),
    {
        let zeros = bus16::fill(Bit::Negative);
        self.access(a, &zeros, Bit::Negative)
    }
}

/// The data memory: two 4096-word banks, 8192 words in all.
pub struct MutDataMemory {
    pub banks: [Ram4k; 2],
}

/// The input lines of the data memory.
pub struct DataMemoryInput {
    pub input: Bus16,
    pub load: Bit,
    pub address: [Bit; 13],
}

/// Splits a thirteen-bit address: the top bit picks the bank, the low twelve
/// address a word inside it.
proof fn lemma_split13(a: [Bit; 13], lo: [Bit; 12])
    requires
        lo[0] == a[1] && lo[1] == a[2] && lo[2] == a[3] && lo[3] == a[4] && lo[4] == a[5] && lo[5]
            == a[6] && lo[6] == a[7] && lo[7] == a[8] && lo[8] == a[9] && lo[9] == a[10] && lo[10]
            == a[11] && lo[11] == a[12],
    ensures
        bus13_val(a) == 4096 * bitv(a[0]) + bus12_val(lo),
        0 <= bitv(a[0]) < 2,
        0 <= bus12_val(lo) < 4096,
{
    reveal(crate::gates::bus16::bitv);
}

impl MutDataMemory {
    /// The 8192 stored words, by address.
    #[verifier::opaque]
    pub open spec fn words(self) -> Seq<Bus16> {
        self.banks[0].words() + self.banks[1].words()
    }

    /// The memory holds exactly 8192 words.
    pub proof fn words_len(self)
        ensures
            self.words().len() == 8192,
    {
        reveal(MutDataMemory::words);
        self.banks[0].words_len();
        self.banks[1].words_len();
    }

    /// Reads the addressed word; for inspection in tests.
    pub fn peek(&mut self, addr: i32) -> (r: Bus16)
        requires
            0 <= addr < 8192,
        ensures
            r == old(self).words()[addr as int],
            final (self).words() =~= old(self).words(),
    {
        let bus = bus16::make_bus16(addr);
        let a13 = bus16::into_bus13(&bus);
        proof {
            bus16::lemma_make_val(bus, addr);
            bus16::lemma_low13(a13, bus);
        }
        self.tick(
            &DataMemoryInput {
                input: bus16::fill(Bit::Negative),
                address: a13,
                load: Bit::Negative,
            },
        )
    }
}

impl MutSC for MutDataMemory {
    type Input = DataMemoryInput;

    type Output = Bus16;

    /// Reads the addressed word; when `load` is high the input word replaces
    /// it after the clock edge, and no other word changes.
    fn tick(&mut self, i: &DataMemoryInput) -> (r: Bus16)
        ensures
            r == old(self).words()[bus13_val(i.address)],
            i.load.as_bool() ==> final (self).words() =~= old(self).words().update(
                bus13_val(i.address),
                i.input,
            ),
            !i.load.as_bool() ==> final (self).words() =~= old(self).words(),
    {
        let a = &i.address;
        let lo = [a[1], a[2], a[3], a[4], a[5], a[6], a[7], a[8], a[9], a[10], a[11], a[12]];
        let inner = Ram4kInput { input: i.input, address: lo, load: i.load };
        proof {
            lemma_split13(*a, lo);
        }
        let bank: usize = match a[0] {
            Bit::Negative => 0,
            Bit::Positive => 1,
        };
        proof {
            assert(bank == bitv(a[0])) by {
                reveal(crate::gates::bus16::bitv);
            }
        }
        let t = self.banks[bank].tick(&inner);
        self.banks[bank] = t.1;
        proof {
            reveal(MutDataMemory::words);
            old(self).banks[0].words_len();
            old(self).banks[1].words_len();
            let h = bitv(a[0]);
            let l = bus12_val(lo);
            lemma_two_banks_index(
                old(self).banks[0].words(),
                old(self).banks[1].words(),
                4096,
                h,
                l,
            );
            if i.load.as_bool() {
                lemma_two_banks_update(
                    old(self).banks[0].words(),
                    old(self).banks[1].words(),
                    self.banks[0].words(),
                    self.banks[1].words(),
                    4096,
                    h,
                    l,
                    i.input,
                );
            }
        }
        t.0
    }
}

impl Zero for MutDataMemory {
    fn new() -> (r: MutDataMemory)
        ensures
            r.words().len() == 8192,
            forall|j: int| 0 <= j < 8192 ==> bus16_val(#[trigger] r.words()[j]) == 0,
    {
        let r_out = MutDataMemory { banks: [Ram4k::new(), Ram4k::new()] };
        proof {
            reveal(MutDataMemory::words);
            r_out.banks[0].words_len();
            r_out.banks[1].words_len();
            assert forall|j: int| 0 <= j < 8192 implies bus16_val(#[trigger] r_out.words()[j])
                == 0 by {
                lemma_two_banks_index(
                    r_out.banks[0].words(),
                    r_out.banks[1].words(),
                    4096,
                    j / 4096,
                    j % 4096,
                );
                vstd::arithmetic::div_mod::lemma_fundamental_div_mod(j, 4096);
            }
        }
        r_out
    }
}

} // verus!
