use vstd::prelude::*;
use vstd::arithmetic::power2::{
    lemma2_to64, lemma2_to64_rest, lemma_pow2_strictly_increases, lemma_pow2_unfold, pow2,
};

verus! {

/// `2^e` as a machine integer.
pub fn power_of_two(e: u32) -> (p: u64)
    requires
        e < 64,
    ensures
        p == pow2(e as nat),
{
    let mut p: u64 = 1;
    let mut i: u32 = 0;
    proof {
        lemma2_to64();
    }
    while i < e
        invariant
            i <= e,
            e < 64,
            p == pow2(i as nat),
        decreases e - i,
    {
        proof {
            lemma_pow2_unfold((i + 1) as nat);
            lemma_pow2_strictly_increases((i + 1) as nat, 64);
            lemma2_to64_rest();
        }
        p = p * 2;
        i = i + 1;
    }
    p
}

/// The least exponent `k` with `2^k >= n`: the ceiling of the binary
/// logarithm for `n >= 1`, and 0 for `n == 0`.
pub open spec fn ceil_log2(n: nat) -> nat
    decreases n,
{
    if n <= 1 {
        0
    } else {
        1 + ceil_log2((n + 1) / 2)
    }
}

/// `ceil_log2(n)` is an exponent whose power reaches `n`, and no smaller
/// exponent does.
pub proof fn lemma_ceil_log2(n: nat)
    ensures
        pow2(ceil_log2(n)) >= n,
        ceil_log2(n) > 0 ==> pow2((ceil_log2(n) - 1) as nat) < n,
    decreases n,
{
    lemma2_to64();
    if n <= 1 {
    } else {
        let h = (n + 1) / 2;
        lemma_ceil_log2(h);
        let k = ceil_log2(h);
        lemma_pow2_unfold(k + 1);
        if k > 0 {
            lemma_pow2_unfold(k);
        }
    }
}

/// Every exponent whose power reaches `n` is at least `ceil_log2(n)`.
pub proof fn lemma_ceil_log2_least(n: nat, k: nat)
    requires
        pow2(k) >= n,
    ensures
        ceil_log2(n) <= k,
{
    lemma_ceil_log2(n);
    let c = ceil_log2(n);
    if c > k {
        if k < c - 1 {
            lemma_pow2_strictly_increases(k, (c - 1) as nat);
        }
    }
}

/// The ceiling of the binary logarithm of `n`.
pub fn ceil_log2_u32(n: u32) -> (k: u32)
    ensures
        k == ceil_log2(n as nat),
        k <= 32,
{
    let mut k: u32 = 0;
    let mut p: u64 = 1;
    proof {
        lemma2_to64();
        lemma2_to64_rest();
        lemma_ceil_log2_least(n as nat, 32);
    }
    while p < n as u64
        invariant
            p == pow2(k as nat),
            k <= ceil_log2(n as nat),
            ceil_log2(n as nat) <= 32,
        decreases ceil_log2(n as nat) - k,
    {
        proof {
            if k == ceil_log2(n as nat) {
                lemma_ceil_log2(n as nat);
            }
            lemma_pow2_unfold((k + 1) as nat);
            lemma_pow2_strictly_increases((k + 1) as nat, 64);
        }
        p = p * 2;
        k = k + 1;
    }
    proof {
        lemma_ceil_log2_least(n as nat, k as nat);
    }
    k
}

} // verus!
