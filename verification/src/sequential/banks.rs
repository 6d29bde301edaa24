//! Shared facts about memories built from a row of equally sized banks: how
//! indexing and updating the whole relate to indexing and updating one bank.

use vstd::prelude::*;

use crate::gates::bus16::Bus16;

verus! {

/// Indexing the concatenation of eight equal banks at `h * n + l` reads
/// bank `h` at `l`.
pub proof fn lemma_eight_banks_index(
    s0: Seq<Bus16>,
    s1: Seq<Bus16>,
    s2: Seq<Bus16>,
    s3: Seq<Bus16>,
    s4: Seq<Bus16>,
    s5: Seq<Bus16>,
    s6: Seq<Bus16>,
    s7: Seq<Bus16>,
    n: int,
    h: int,
    l: int,
)
    requires
        s0.len() == n && s1.len() == n && s2.len() == n && s3.len() == n,
        s4.len() == n && s5.len() == n && s6.len() == n && s7.len() == n,
        0 <= h < 8,
        0 <= l < n,
    ensures
        (s0 + s1 + s2 + s3 + s4 + s5 + s6 + s7)[h * n + l] == if h == 0 {
            s0[l]
        } else if h == 1 {
            s1[l]
        } else if h == 2 {
            s2[l]
        } else if h == 3 {
            s3[l]
        } else if h == 4 {
            s4[l]
        } else if h == 5 {
            s5[l]
        } else if h == 6 {
            s6[l]
        } else {
            s7[l]
        },
{
}

/// Updating bank `h` at `l` updates the concatenation at `h * n + l` and
/// nothing else.
pub proof fn lemma_eight_banks_update(
    s0: Seq<Bus16>,
    s1: Seq<Bus16>,
    s2: Seq<Bus16>,
    s3: Seq<Bus16>,
    s4: Seq<Bus16>,
    s5: Seq<Bus16>,
    s6: Seq<Bus16>,
    s7: Seq<Bus16>,
    t0: Seq<Bus16>,
    t1: Seq<Bus16>,
    t2: Seq<Bus16>,
    t3: Seq<Bus16>,
    t4: Seq<Bus16>,
    t5: Seq<Bus16>,
    t6: Seq<Bus16>,
    t7: Seq<Bus16>,
    n: int,
    h: int,
    l: int,
    v: Bus16,
)
    requires
        s0.len() == n && s1.len() == n && s2.len() == n && s3.len() == n,
        s4.len() == n && s5.len() == n && s6.len() == n && s7.len() == n,
        0 <= h < 8,
        0 <= l < n,
        t0 == if h == 0 {
            s0.update(l, v)
        } else {
            s0
        },
        t1 == if h == 1 {
            s1.update(l, v)
        } else {
            s1
        },
        t2 == if h == 2 {
            s2.update(l, v)
        } else {
            s2
        },
        t3 == if h == 3 {
            s3.update(l, v)
        } else {
            s3
        },
        t4 == if h == 4 {
            s4.update(l, v)
        } else {
            s4
        },
        t5 == if h == 5 {
            s5.update(l, v)
        } else {
            s5
        },
        t6 == if h == 6 {
            s6.update(l, v)
        } else {
            s6
        },
        t7 == if h == 7 {
            s7.update(l, v)
        } else {
            s7
        },
    ensures
        t0 + t1 + t2 + t3 + t4 + t5 + t6 + t7 =~= (s0 + s1 + s2 + s3 + s4 + s5 + s6 + s7).update(
            h * n + l,
            v,
        ),
{
    let old_all = s0 + s1 + s2 + s3 + s4 + s5 + s6 + s7;
    let new_all = t0 + t1 + t2 + t3 + t4 + t5 + t6 + t7;
    assert forall|k: int| 0 <= k < old_all.len() implies new_all[k] == old_all.update(
        h * n + l,
        v,
    )[k] by {
        let bank = k / n;
        let off = k % n;
        vstd::arithmetic::div_mod::lemma_fundamental_div_mod(k, n);
        assert(k == bank * n + off);
    }
    assert(new_all.len() == old_all.len());
}

/// Indexing the concatenation of two equal banks at `h * n + l` reads bank
/// `h` at `l`.
pub proof fn lemma_two_banks_index(s0: Seq<Bus16>, s1: Seq<Bus16>, n: int, h: int, l: int)
    requires
        s0.len() == n && s1.len() == n,
        0 <= h < 2,
        0 <= l < n,
    ensures
        (s0 + s1)[h * n + l] == if h == 0 {
            s0[l]
        } else {
            s1[l]
        },
{
}

/// Updating bank `h` at `l` updates the concatenation of two banks at
/// `h * n + l` and nothing else.
pub proof fn lemma_two_banks_update(
    s0: Seq<Bus16>,
    s1: Seq<Bus16>,
    t0: Seq<Bus16>,
    t1: Seq<Bus16>,
    n: int,
    h: int,
    l: int,
    v: Bus16,
)
    requires
        s0.len() == n && s1.len() == n,
        0 <= h < 2,
        0 <= l < n,
        t0 == if h == 0 {
            s0.update(l, v)
        } else {
            s0
        },
        t1 == if h == 1 {
            s1.update(l, v)
        } else {
            s1
        },
    ensures
        t0 + t1 =~= (s0 + s1).update(h * n + l, v),
{
}

/// Indexing the concatenation of four equal banks at `h * n + l` reads bank
/// `h` at `l`.
pub proof fn lemma_four_banks_index(
    s0: Seq<Bus16>,
    s1: Seq<Bus16>,
    s2: Seq<Bus16>,
    s3: Seq<Bus16>,
    n: int,
    h: int,
    l: int,
)
    requires
        s0.len() == n && s1.len() == n && s2.len() == n && s3.len() == n,
        0 <= h < 4,
        0 <= l < n,
    ensures
        (s0 + s1 + s2 + s3)[h * n + l] == if h == 0 {
            s0[l]
        } else if h == 1 {
            s1[l]
        } else if h == 2 {
            s2[l]
        } else {
            s3[l]
        },
{
}

/// Updating bank `h` at `l` updates the concatenation of four banks at
/// `h * n + l` and nothing else.
pub proof fn lemma_four_banks_update(
    s0: Seq<Bus16>,
    s1: Seq<Bus16>,
    s2: Seq<Bus16>,
    s3: Seq<Bus16>,
    t0: Seq<Bus16>,
    t1: Seq<Bus16>,
    t2: Seq<Bus16>,
    t3: Seq<Bus16>,
    n: int,
    h: int,
    l: int,
    v: Bus16,
)
    requires
        s0.len() == n && s1.len() == n && s2.len() == n && s3.len() == n,
        0 <= h < 4,
        0 <= l < n,
        t0 == if h == 0 {
            s0.update(l, v)
        } else {
            s0
        },
        t1 == if h == 1 {
            s1.update(l, v)
        } else {
            s1
        },
        t2 == if h == 2 {
            s2.update(l, v)
        } else {
            s2
        },
        t3 == if h == 3 {
            s3.update(l, v)
        } else {
            s3
        },
    ensures
        t0 + t1 + t2 + t3 =~= (s0 + s1 + s2 + s3).update(h * n + l, v),
{
}


/// Read-after-write, at every level of the hierarchy: a tick that stored `v`
/// at address `a` left the memory's words updated there (its contract), so
/// the next tick's read at `a` returns `v`, and every other address still
/// holds what it held before.
pub proof fn lemma_read_after_write(w0: Seq<Bus16>, w1: Seq<Bus16>, a: int, v: Bus16, r: Bus16)
    requires
        0 <= a < w0.len(),
        w1 == w0.update(a, v),
        r == w1[a],
    ensures
        r == v,
        w1.len() == w0.len(),
        forall|j: int| 0 <= j < w0.len() && j != a ==> w1[j] == w0[j],
{
}

} // verus!
