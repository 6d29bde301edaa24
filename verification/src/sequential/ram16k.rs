//! A 16384-word memory, ticked in place: four 4096-word banks selected by
//! the top two address bits.

use vstd::prelude::*;

use crate::gates::bit::bus2_val;
use crate::gates::bit::Bus2;
use crate::gates::bus16::{bitv, bus16_val, Bus16};
use crate::infrastructure::{MutSC, SequentialCircuit, Zero};
use crate::primitive::Bit;
use crate::sequential::banks::{lemma_four_banks_index, lemma_four_banks_update};
use crate::sequential::ram4k::{bus12_val, Ram4k, Ram4kInput};

verus! {

/// The unsigned value of a fourteen-bit address, most significant bit first.
pub open spec fn bus14_val(a: [Bit; 14]) -> int {
    8192 * bitv(a[0]) + 4096 * bitv(a[1]) + 2048 * bitv(a[2]) + 1024 * bitv(a[3]) + 512 * bitv(
        a[4],
    ) + 256 * bitv(a[5]) + 128 * bitv(a[6]) + 64 * bitv(a[7]) + 32 * bitv(a[8]) + 16 * bitv(a[9])
        + 8 * bitv(a[10]) + 4 * bitv(a[11]) + 2 * bitv(a[12]) + bitv(a[13])
}

/// The input lines of the 16384-word memory.
pub struct Ram16kInput {
    pub input: Bus16,
    pub address: [Bit; 14],
    pub load: Bit,
}

/// The in-place 16384-word memory: the addressed bank alone is ticked.
pub struct MutRam16k {
    pub banks: [Ram4k; 4],
}

impl MutRam16k {
    /// The 16384 stored words, by address.
    #[verifier::opaque]
    pub open spec fn words(self) -> Seq<Bus16> {
        self.banks[0].words() + self.banks[1].words() + self.banks[2].words()
            + self.banks[3].words()
    }

    /// The memory holds exactly 16384 words.
    pub proof fn words_len(self)
        ensures
            self.words().len() == 16384,
    {
        reveal(MutRam16k::words);
        self.banks[0].words_len();
        self.banks[1].words_len();
        self.banks[2].words_len();
        self.banks[3].words_len();
    }
}

/// Splits a fourteen-bit address: the top two bits pick the bank, the low
/// twelve address a word inside it.
proof fn lemma_split14(a: [Bit; 14], hi: Bus2, lo: [Bit; 12])
    requires
        hi[0] == a[0] && hi[1] == a[1],
        lo[0] == a[2] && lo[1] == a[3] && lo[2] == a[4] && lo[3] == a[5] && lo[4] == a[6] && lo[5]
            == a[7] && lo[6] == a[8] && lo[7] == a[9] && lo[8] == a[10] && lo[9] == a[11] && lo[10]
            == a[12] && lo[11] == a[13],
    ensures
        bus14_val(a) == 4096 * bus2_val(hi) + bus12_val(lo),
        0 <= bus2_val(hi) < 4,
        0 <= bus12_val(lo) < 4096,
{
    reveal(crate::gates::bus16::bitv);
}

impl MutSC for MutRam16k {
    type Input = Ram16kInput;

    type Output = Bus16;

    /// Reads the addressed word; when `load` is high the input word replaces
    /// it after the clock edge, and no other word changes.
    fn tick(&mut self, input: &Ram16kInput) -> (r: Bus16)
        ensures
            r == old(self).words()[bus14_val(input.address)],
            input.load.as_bool() ==> final (self).words() =~= old(self).words().update(
                bus14_val(input.address),
                input.input,
            ),
            !input.load.as_bool() ==> final (self).words() =~= old(self).words(),
    {
        let a = &input.address;
        let hi = [a[0], a[1]];
        let lo = [
            a[2],
            a[3],
            a[4],
            a[5],
            a[6],
            a[7],
            a[8],
            a[9],
            a[10],
            a[11],
            a[12],
            a[13],
        ];
        let inner = Ram4kInput { input: input.input, address: lo, load: input.load };
        proof {
            lemma_split14(*a, hi, lo);
        }
        let bank: usize = match (a[0], a[1]) {
            (Bit::Negative, Bit::Negative) => 0,
            (Bit::Negative, Bit::Positive) => 1,
            (Bit::Positive, Bit::Negative) => 2,
            (Bit::Positive, Bit::Positive) => 3,
        };
        proof {
            assert(bank == bus2_val(hi));
        }
        let t = self.banks[bank].tick(&inner);
        self.banks[bank] = t.1;
        proof {
            reveal(MutRam16k::words);
            old(self).banks[0].words_len();
            old(self).banks[1].words_len();
            old(self).banks[2].words_len();
            old(self).banks[3].words_len();
            let h = bus2_val(hi);
            let l = bus12_val(lo);
            lemma_four_banks_index(
                old(self).banks[0].words(),
                old(self).banks[1].words(),
                old(self).banks[2].words(),
                old(self).banks[3].words(),
                4096,
                h,
                l,
            );
            if input.load.as_bool() {
                lemma_four_banks_update(
                    old(self).banks[0].words(),
                    old(self).banks[1].words(),
                    old(self).banks[2].words(),
                    old(self).banks[3].words(),
                    self.banks[0].words(),
                    self.banks[1].words(),
                    self.banks[2].words(),
                    self.banks[3].words(),
                    4096,
                    h,
                    l,
                    input.input,
                );
            }
        }
        t.0
    }
}

impl Zero for MutRam16k {
    fn new() -> (r: MutRam16k)
        ensures
            forall|j: int| 0 <= j < 16384 ==> bus16_val(#[trigger] r.words()[j]) == 0,
    {
        let r_out = MutRam16k { banks: [Ram4k::new(), Ram4k::new(), Ram4k::new(), Ram4k::new()] };
        proof {
            reveal(MutRam16k::words);
            r_out.banks[0].words_len();
            r_out.banks[1].words_len();
            r_out.banks[2].words_len();
            r_out.banks[3].words_len();
            assert forall|j: int| 0 <= j < 16384 implies bus16_val(#[trigger] r_out.words()[j])
                == 0 by {
                let h = j / 4096;
                let l = j % 4096;
                vstd::arithmetic::div_mod::lemma_fundamental_div_mod(j, 4096);
                lemma_four_banks_index(
                    r_out.banks[0].words(),
                    r_out.banks[1].words(),
                    r_out.banks[2].words(),
                    r_out.banks[3].words(),
                    4096,
                    h,
                    l,
                );
            }
        }
        r_out
    }
}

} // verus!
