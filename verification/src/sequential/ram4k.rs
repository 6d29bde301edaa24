//! A 4096-word memory: eight 512-word banks. The top three address bits pick
//! the bank, the rest go through to it, in both the immutable and the
//! in-place form.

use vstd::prelude::*;

use crate::gates::bit;
use crate::gates::bit::bus3_val;
use crate::gates::bus3::Bus3;
use crate::gates::bus16::{bitv, bus16_val, mux8way16, Bus16};
use crate::infrastructure::{MutSC, SequentialCircuit, Zero};
use crate::primitive::Bit;
use crate::sequential::banks::{lemma_eight_banks_index, lemma_eight_banks_update};
use crate::sequential::ram512::{bus9_val, Ram512, Ram512Input};

verus! {

/// The unsigned value of a 12-bit address, most significant bit first.
pub open spec fn bus12_val(a: [Bit; 12]) -> int {
    2048 * bitv(a[0]) + 1024 * bitv(a[1]) + 512 * bitv(a[2]) + 256 * bitv(a[3]) + 128 * bitv(a[4]) + 64 * bitv(a[5]) + 32 * bitv(a[6]) + 16 * bitv(a[7]) + 8 * bitv(a[8]) + 4 * bitv(a[9]) + 2 * bitv(a[10]) + bitv(a[11])
}

/// Eight 512-word banks.
pub struct Ram4k {
    pub banks: [Ram512; 8],
}

/// The input lines of the 4096-word memory.
pub struct Ram4kInput {
    pub input: Bus16,
    pub address: [Bit; 12],
    pub load: Bit,
}

impl Ram4k {
    /// The 4096 stored words, by address.
    #[verifier::opaque]
    pub open spec fn words(self) -> Seq<Bus16> {
        self.banks[0].words() + self.banks[1].words() + self.banks[2].words()
            + self.banks[3].words() + self.banks[4].words() + self.banks[5].words()
            + self.banks[6].words() + self.banks[7].words()
    }

    /// The memory holds exactly 4096 words.
    pub proof fn words_len(self)
        ensures
            self.words().len() == 4096,
    {
        reveal(Ram4k::words);
        self.banks[0].words_len();
        self.banks[1].words_len();
        self.banks[2].words_len();
        self.banks[3].words_len();
        self.banks[4].words_len();
        self.banks[5].words_len();
        self.banks[6].words_len();
        self.banks[7].words_len();
    }
}

/// Splits a 12-bit address: the top three bits pick the bank, the low three
/// address a word inside it.
proof fn lemma_split12(a: [Bit; 12], hi: Bus3, lo: [Bit; 9])
    requires
        hi[0] == a[0] && hi[1] == a[1] && hi[2] == a[2],
        lo[0] == a[3] && lo[1] == a[4] && lo[2] == a[5] && lo[3] == a[6] && lo[4] == a[7] && lo[5] == a[8] && lo[6] == a[9] && lo[7] == a[10] && lo[8] == a[11],
    ensures
        bus12_val(a) == 512 * bus3_val(hi) + bus9_val(lo),
        0 <= bus3_val(hi) < 8,
        0 <= bus9_val(lo) < 512,
{
    reveal(crate::gates::bus16::bitv);
}

impl SequentialCircuit for Ram4k {
    type Input = Ram4kInput;

    type Output = Bus16;

    /// Reads the addressed word; when `load` is high the input word replaces
    /// it after the clock edge, and no other word changes.
    fn tick(&self, input: &Ram4kInput) -> (r: (Bus16, Ram4k))
        ensures
            r.0 == self.words()[bus12_val(input.address)],
            input.load.as_bool() ==> r.1.words() =~= self.words().update(
                bus12_val(input.address),
                input.input,
            ),
            !input.load.as_bool() ==> r.1.words() =~= self.words(),
    {
        let a = &input.address;
        let hi = [a[0], a[1], a[2]];
        let lo = [a[3], a[4], a[5], a[6], a[7], a[8], a[9], a[10], a[11]];
        let loads = bit::dmux8way(input.load, &hi);
        let t0 = self.banks[0].tick(&Ram512Input { input: input.input, address: lo, load: loads[0] });
        let t1 = self.banks[1].tick(&Ram512Input { input: input.input, address: lo, load: loads[1] });
        let t2 = self.banks[2].tick(&Ram512Input { input: input.input, address: lo, load: loads[2] });
        let t3 = self.banks[3].tick(&Ram512Input { input: input.input, address: lo, load: loads[3] });
        let t4 = self.banks[4].tick(&Ram512Input { input: input.input, address: lo, load: loads[4] });
        let t5 = self.banks[5].tick(&Ram512Input { input: input.input, address: lo, load: loads[5] });
        let t6 = self.banks[6].tick(&Ram512Input { input: input.input, address: lo, load: loads[6] });
        let t7 = self.banks[7].tick(&Ram512Input { input: input.input, address: lo, load: loads[7] });
        let out = mux8way16(&t0.0, &t1.0, &t2.0, &t3.0, &t4.0, &t5.0, &t6.0, &t7.0, &hi);
        let next = Ram4k { banks: [t0.1, t1.1, t2.1, t3.1, t4.1, t5.1, t6.1, t7.1] };
        proof {
            reveal(Ram4k::words);
            self.banks[0].words_len();
            self.banks[1].words_len();
            self.banks[2].words_len();
            self.banks[3].words_len();
            self.banks[4].words_len();
            self.banks[5].words_len();
            self.banks[6].words_len();
            self.banks[7].words_len();
            lemma_split12(*a, hi, lo);
            let h = bus3_val(hi);
            let l = bus9_val(lo);
            crate::gates::bus16::lemma_mux8way_picks(
                out,
                t0.0,
                t1.0,
                t2.0,
                t3.0,
                t4.0,
                t5.0,
                t6.0,
                t7.0,
                hi,
            );
            lemma_eight_banks_index(
                self.banks[0].words(),
                self.banks[1].words(),
                self.banks[2].words(),
                self.banks[3].words(),
                self.banks[4].words(),
                self.banks[5].words(),
                self.banks[6].words(),
                self.banks[7].words(),
                512,
                h,
                l,
            );
            assert(next.banks[0] == t0.1);
            assert(next.banks[1] == t1.1);
            assert(next.banks[2] == t2.1);
            assert(next.banks[3] == t3.1);
            assert(next.banks[4] == t4.1);
            assert(next.banks[5] == t5.1);
            assert(next.banks[6] == t6.1);
            assert(next.banks[7] == t7.1);
            if input.load.as_bool() {
                lemma_eight_banks_update(
                    self.banks[0].words(),
                    self.banks[1].words(),
                    self.banks[2].words(),
                    self.banks[3].words(),
                    self.banks[4].words(),
                    self.banks[5].words(),
                    self.banks[6].words(),
                    self.banks[7].words(),
                    next.banks[0].words(),
                    next.banks[1].words(),
                    next.banks[2].words(),
                    next.banks[3].words(),
                    next.banks[4].words(),
                    next.banks[5].words(),
                    next.banks[6].words(),
                    next.banks[7].words(),
                    512,
                    h,
                    l,
                    input.input,
                );
            }
        }
        (out, next)
    }
}

impl Zero for Ram4k {
    fn new() -> (r: Ram4k)
        ensures
            forall|j: int| 0 <= j < 4096 ==> bus16_val(#[trigger] r.words()[j]) == 0,
    {
        let r_out = Ram4k {
            banks: [
                Ram512::new(),
                Ram512::new(),
                Ram512::new(),
                Ram512::new(),
                Ram512::new(),
                Ram512::new(),
                Ram512::new(),
                Ram512::new(),
            ],
        };
        proof {
            reveal(Ram4k::words);
            r_out.banks[0].words_len();
            r_out.banks[1].words_len();
            r_out.banks[2].words_len();
            r_out.banks[3].words_len();
            r_out.banks[4].words_len();
            r_out.banks[5].words_len();
            r_out.banks[6].words_len();
            r_out.banks[7].words_len();
            assert forall|j: int| 0 <= j < 4096 implies bus16_val(#[trigger] r_out.words()[j])
                == 0 by {
                let h = j / 512;
                let l = j % 512;
                vstd::arithmetic::div_mod::lemma_fundamental_div_mod(j, 512);
                lemma_eight_banks_index(
                    r_out.banks[0].words(),
                    r_out.banks[1].words(),
                    r_out.banks[2].words(),
                    r_out.banks[3].words(),
                    r_out.banks[4].words(),
                    r_out.banks[5].words(),
                    r_out.banks[6].words(),
                    r_out.banks[7].words(),
                    512,
                    h,
                    l,
                );
            }
        }
        r_out
    }
}

/// The in-place 4096-word memory: the addressed bank alone is ticked.
pub struct MutRam4k {
    pub banks: [Ram512; 8],
}

impl MutRam4k {
    /// The 4096 stored words, by address.
    #[verifier::opaque]
    pub open spec fn words(self) -> Seq<Bus16> {
        self.banks[0].words() + self.banks[1].words() + self.banks[2].words()
            + self.banks[3].words() + self.banks[4].words() + self.banks[5].words()
            + self.banks[6].words() + self.banks[7].words()
    }

    /// The memory holds exactly 4096 words.
    pub proof fn words_len(self)
        ensures
            self.words().len() == 4096,
    {
        reveal(MutRam4k::words);
        self.banks[0].words_len();
        self.banks[1].words_len();
        self.banks[2].words_len();
        self.banks[3].words_len();
        self.banks[4].words_len();
        self.banks[5].words_len();
        self.banks[6].words_len();
        self.banks[7].words_len();
    }
}

impl MutSC for MutRam4k {
    type Input = Ram4kInput;

    type Output = Bus16;

    /// Reads the addressed word; when `load` is high the input word replaces
    /// it after the clock edge, and no other word changes.
    fn tick(&mut self, input: &Ram4kInput) -> (r: Bus16)
        ensures
            r == old(self).words()[bus12_val(input.address)],
            input.load.as_bool() ==> final (self).words() =~= old(self).words().update(
                bus12_val(input.address),
                input.input,
            ),
            !input.load.as_bool() ==> final (self).words() =~= old(self).words(),
    {
        let a = &input.address;
        let hi = [a[0], a[1], a[2]];
        let lo = [a[3], a[4], a[5], a[6], a[7], a[8], a[9], a[10], a[11]];
        let inner = Ram512Input { input: input.input, address: lo, load: input.load };
        proof {
            lemma_split12(*a, hi, lo);
        }
        let bank: usize = match (a[0], a[1], a[2]) {
            (Bit::Negative, Bit::Negative, Bit::Negative) => 0,
            (Bit::Negative, Bit::Negative, Bit::Positive) => 1,
            (Bit::Negative, Bit::Positive, Bit::Negative) => 2,
            (Bit::Negative, Bit::Positive, Bit::Positive) => 3,
            (Bit::Positive, Bit::Negative, Bit::Negative) => 4,
            (Bit::Positive, Bit::Negative, Bit::Positive) => 5,
            (Bit::Positive, Bit::Positive, Bit::Negative) => 6,
            (Bit::Positive, Bit::Positive, Bit::Positive) => 7,
        };
        proof {
            assert(bank == bus3_val(hi));
        }
        let t = self.banks[bank].tick(&inner);
        self.banks[bank] = t.1;
        proof {
            reveal(MutRam4k::words);
            old(self).banks[0].words_len();
            old(self).banks[1].words_len();
            old(self).banks[2].words_len();
            old(self).banks[3].words_len();
            old(self).banks[4].words_len();
            old(self).banks[5].words_len();
            old(self).banks[6].words_len();
            old(self).banks[7].words_len();
            let h = bus3_val(hi);
            let l = bus9_val(lo);
            lemma_eight_banks_index(
                old(self).banks[0].words(),
                old(self).banks[1].words(),
                old(self).banks[2].words(),
                old(self).banks[3].words(),
                old(self).banks[4].words(),
                old(self).banks[5].words(),
                old(self).banks[6].words(),
                old(self).banks[7].words(),
                512,
                h,
                l,
            );
            if input.load.as_bool() {
                lemma_eight_banks_update(
                    old(self).banks[0].words(),
                    old(self).banks[1].words(),
                    old(self).banks[2].words(),
                    old(self).banks[3].words(),
                    old(self).banks[4].words(),
                    old(self).banks[5].words(),
                    old(self).banks[6].words(),
                    old(self).banks[7].words(),
                    self.banks[0].words(),
                    self.banks[1].words(),
                    self.banks[2].words(),
                    self.banks[3].words(),
                    self.banks[4].words(),
                    self.banks[5].words(),
                    self.banks[6].words(),
                    self.banks[7].words(),
                    512,
                    h,
                    l,
                    input.input,
                );
            }
        }
        t.0
    }
}

impl Zero for MutRam4k {
    fn new() -> (r: MutRam4k)
        ensures
            forall|j: int| 0 <= j < 4096 ==> bus16_val(#[trigger] r.words()[j]) == 0,
    {
        let r_out = MutRam4k {
            banks: [
                Ram512::new(),
                Ram512::new(),
                Ram512::new(),
                Ram512::new(),
                Ram512::new(),
                Ram512::new(),
                Ram512::new(),
                Ram512::new(),
            ],
        };
        proof {
            reveal(MutRam4k::words);
            r_out.banks[0].words_len();
            r_out.banks[1].words_len();
            r_out.banks[2].words_len();
            r_out.banks[3].words_len();
            r_out.banks[4].words_len();
            r_out.banks[5].words_len();
            r_out.banks[6].words_len();
            r_out.banks[7].words_len();
            assert forall|j: int| 0 <= j < 4096 implies bus16_val(#[trigger] r_out.words()[j])
                == 0 by {
                let h = j / 512;
                let l = j % 512;
                vstd::arithmetic::div_mod::lemma_fundamental_div_mod(j, 512);
                lemma_eight_banks_index(
                    r_out.banks[0].words(),
                    r_out.banks[1].words(),
                    r_out.banks[2].words(),
                    r_out.banks[3].words(),
                    r_out.banks[4].words(),
                    r_out.banks[5].words(),
                    r_out.banks[6].words(),
                    r_out.banks[7].words(),
                    512,
                    h,
                    l,
                );
            }
        }
        r_out
    }
}

} // verus!
