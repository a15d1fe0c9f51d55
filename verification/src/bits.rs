//! Sets of signal levels held as 16-bit masks: bit `i` stands for level `i`.

use vstd::prelude::*;

verus! {

/// Whether level `i` is in the set.
pub open spec fn bit(mask: u16, i: nat) -> bool {
    i < 16 && (mask >> (i as u16)) & 1 == 1
}

/// How many of the levels below `n` are in the set.
pub open spec fn popcount_below(mask: u16, n: nat) -> nat
    decreases n,
{
    if n == 0 {
        0
    } else {
        popcount_below(mask, (n - 1) as nat) + if bit(mask, (n - 1) as nat) {
            1nat
        } else {
            0nat
        }
    }
}

/// How many levels are in the set.
pub open spec fn popcount(mask: u16) -> nat {
    popcount_below(mask, 16)
}

/// Whether level `i` is in the set.
pub fn test_bit(mask: u16, i: u8) -> (set: bool)
    requires
        i < 16,
    ensures
        set == bit(mask, i as nat),
{
    (mask >> (i as u16)) & 1 == 1
}

/// Counts the levels below `n` that are in the set.
pub fn count_below(mask: u16, n: u8) -> (count: u8)
    requires
        n <= 16,
    ensures
        count == popcount_below(mask, n as nat),
        count <= n,
{
    let mut count: u8 = 0;
    let mut i: u8 = 0;
    while i < n
        invariant
            i <= n <= 16,
            count == popcount_below(mask, i as nat),
            count <= i,
        decreases n - i,
    {
        if test_bit(mask, i) {
            count += 1;
        }
        i += 1;
    }
    count
}

/// Counts the levels in the set.
pub fn count_ones(mask: u16) -> (count: u8)
    ensures
        count == popcount(mask),
        count <= 16,
{
    count_below(mask, 16)
}

/// A subset has no more levels below `n` than the set it was cut from.
pub proof fn lemma_popcount_subset(a: u16, m: u16, n: nat)
    requires
        n <= 16,
    ensures
        popcount_below(a & m, n) <= popcount_below(a, n),
    decreases n,
{
    if n > 0 {
        lemma_popcount_subset(a, m, (n - 1) as nat);
        let i = (n - 1) as u16;
        assert(((a & m) >> i) & 1 == 1 ==> (a >> i) & 1 == 1) by (bit_vector)
            requires
                i < 16,
        ;
    }
}

/// Cutting a level out of a set lowers the count of every range that holds the level.
pub proof fn lemma_popcount_strict(a: u16, m: u16, k: nat, n: nat)
    requires
        k < n <= 16,
        bit(a, k),
        !bit(a & m, k),
    ensures
        popcount_below(a & m, n) < popcount_below(a, n),
    decreases n,
{
    if n - 1 == k {
        lemma_popcount_subset(a, m, (n - 1) as nat);
    } else {
        lemma_popcount_strict(a, m, k, (n - 1) as nat);
        let i = (n - 1) as u16;
        assert(((a & m) >> i) & 1 == 1 ==> (a >> i) & 1 == 1) by (bit_vector)
            requires
                i < 16,
        ;
    }
}

/// Where a subset keeps every level of the set, the counts agree.
pub proof fn lemma_popcount_same(a: u16, m: u16, n: nat)
    requires
        n <= 16,
        forall|k: nat| k < n && bit(a, k) ==> bit(a & m, k),
    ensures
        popcount_below(a & m, n) == popcount_below(a, n),
    decreases n,
{
    if n > 0 {
        lemma_popcount_same(a, m, (n - 1) as nat);
        let i = (n - 1) as u16;
        assert(((a & m) >> i) & 1 == 1 ==> (a >> i) & 1 == 1) by (bit_vector)
            requires
                i < 16,
        ;
        assert(bit(a, (n - 1) as nat) ==> bit(a & m, (n - 1) as nat));
    }
}

} // verus!
