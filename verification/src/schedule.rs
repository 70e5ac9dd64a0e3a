use vstd::prelude::*;
use vstd::arithmetic::power2::{pow2, lemma_pow2_adds, lemma2_to64};

verus! {

/// One dispatch of the cascade kernel.
#[derive(Debug, Clone, Copy, PartialEq, Eq)]
pub struct CascadePass {
    /// The cascade that the pass writes.
    pub level: u32,
    /// The cascade that is bound as input, if any: the next coarser one,
    /// where there is one and rays are to be continued into it. No other
    /// cascade is readable during the pass.
    pub bound_level: Option<u32>,
    /// Whether the kernel continues rays that leave the interval into the
    /// bound cascade.
    pub merges: bool,
}

/// The `index`-th pass of a frame with `count` cascades: cascades are
/// computed from the coarsest down to the finest. The coarsest cascade has
/// nothing coarser to read, and with merging disabled no cascade reads
/// another.
pub open spec fn cascade_pass_at(count: nat, merge: bool, index: nat) -> CascadePass
    recommends
        index < count <= u32::MAX,
{
    let level = (count - 1 - index) as nat;
    let reads = merge && level + 1 < count;
    CascadePass {
        level: level as u32,
        bound_level: if reads {
            Some((level + 1) as u32)
        } else {
            None
        },
        merges: reads,
    }
}

/// The passes of one frame, in the order in which they run.
pub fn cascade_passes(count: u32, merge: bool) -> (passes: Vec<CascadePass>)
    ensures
        passes.len() == count,
        forall|i: int| 0 <= i < count ==> passes[i] == cascade_pass_at(count as nat, merge, i as nat),
        forall|i: int|
            0 <= i < count ==> (#[trigger] passes[i]).bound_level != Some(passes[i].level)
                && passes[i].level < count && (passes[i].bound_level matches Some(bound) ==> bound
                < count),
        count >= 1 ==> passes[0].bound_level is None,
{
    let mut passes: Vec<CascadePass> = Vec::new();
    let mut i: u32 = 0;
    while i < count
        invariant
            i <= count,
            passes.len() == i,
            forall|j: int| 0 <= j < i ==> passes[j] == cascade_pass_at(count as nat, merge, j as nat),
        decreases count - i,
    {
        let level: u32 = count - 1 - i;
        let reads: bool = merge && level < count - 1;
        passes.push(
            CascadePass {
                level,
                bound_level: if reads {
                    Some(level + 1)
                } else {
                    None
                },
                merges: reads,
            },
        );
        i = i + 1;
    }
    passes
}

/// Every cascade is written by exactly the pass that its level names: pass
/// `count - 1 - level`.
pub proof fn lemma_every_level_is_written(count: nat, merge: bool, level: nat)
    requires
        level < count <= u32::MAX,
    ensures
        cascade_pass_at(count, merge, (count - 1 - level) as nat).level == level,
{
}

/// No pass reads the cascade that it writes, no pass reads a cascade that
/// does not exist, and the coarsest cascade, which is written first, reads
/// none at all.
pub proof fn lemma_no_pass_reads_its_target(count: nat, merge: bool, index: nat)
    requires
        index < count <= u32::MAX,
    ensures
        cascade_pass_at(count, merge, index).level < count,
        cascade_pass_at(count, merge, index).bound_level != Some(
            cascade_pass_at(count, merge, index).level,
        ),
        cascade_pass_at(count, merge, index).bound_level matches Some(bound) ==> bound < count,
        cascade_pass_at(count, merge, 0).level == count - 1,
        cascade_pass_at(count, merge, 0).bound_level is None,
{
}

/// A cascade is bound as input exactly where the kernel is told to merge.
pub proof fn lemma_bound_where_merging(count: nat, merge: bool, index: nat)
    requires
        index < count <= u32::MAX,
    ensures
        cascade_pass_at(count, merge, index).merges <==> cascade_pass_at(
            count,
            merge,
            index,
        ).bound_level is Some,
{
}

/// A pass that merges reads the next coarser cascade, and that cascade was
/// written by the pass just before it: it holds this frame's completed
/// value.
pub proof fn lemma_merge_source_is_ready(count: nat, merge: bool, index: nat)
    requires
        index < count <= u32::MAX,
        cascade_pass_at(count, merge, index).merges,
    ensures
        index >= 1,
        cascade_pass_at(count, merge, index).bound_level == Some(
            (cascade_pass_at(count, merge, index).level + 1) as u32,
        ),
        Some(cascade_pass_at(count, merge, (index - 1) as nat).level) == cascade_pass_at(
            count,
            merge,
            index,
        ).bound_level,
{
}

/// With merging disabled no pass is told to merge and no pass has any
/// cascade bound as input: nothing of a coarser cascade, and nothing that
/// a cascade held before the frame, can reach what a pass writes.
pub proof fn lemma_merge_disabled_isolates(count: nat, index: nat)
    requires
        index < count <= u32::MAX,
    ensures
        !cascade_pass_at(count, false, index).merges,
        cascade_pass_at(count, false, index).bound_level is None,
{
}

/// With merging enabled every cascade but the coarsest merges.
pub proof fn lemma_merge_enabled_chains(count: nat, index: nat)
    requires
        index < count <= u32::MAX,
    ensures
        cascade_pass_at(count, true, index).merges <==> index >= 1,
{
}

/// Whether `4^k` reaches the length of the diagonal of a `width` by `height`
/// screen (compared by squares, so exactly).
pub open spec fn reaches_diagonal(k: nat, width: nat, height: nat) -> bool {
    pow2(4 * k) >= width * width + height * height
}

/// The number of cascades that a screen asks for: the least `k` such that
/// `4^k` reaches the length of its diagonal.
pub fn cascade_count_for_screen(width: u32, height: u32) -> (k: u32)
    ensures
        reaches_diagonal(k as nat, width as nat, height as nat),
        k > 0 ==> !reaches_diagonal((k - 1) as nat, width as nat, height as nat),
        k <= 17,
{
    assert((width as int) * (width as int) <= 0xffff_fffe_0000_0001) by (nonlinear_arith)
        requires
            0 <= width <= 0xffff_ffff,
    ;
    assert((height as int) * (height as int) <= 0xffff_fffe_0000_0001) by (nonlinear_arith)
        requires
            0 <= height <= 0xffff_ffff,
    ;
    let target: u128 = (width as u128) * (width as u128) + (height as u128) * (height as u128);
    let mut p: u128 = 1;
    let mut k: u32 = 0;
    proof {
        lemma2_to64();
    }
    while p < target
        invariant
            p == pow2((4 * k) as nat),
            target == (width as int) * (width as int) + (height as int) * (height as int),
            target <= 0x1_ffff_fffc_0000_0002,
            k > 0 ==> pow2((4 * (k - 1)) as nat) < target,
            k <= 17,
            p < target ==> k < 17,
        decreases 17 - k,
    {
        proof {
            lemma2_to64();
            lemma_pow2_adds((4 * k) as nat, 4);
            if k == 16 {
                // `4^17` already exceeds every squared diagonal.
                assert(pow2(68) == pow2(64) * 16);
            }
        }
        p = p * 16;
        k = k + 1;
    }
    k
}

} // verus!
