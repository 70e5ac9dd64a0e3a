use vstd::prelude::*;
use vstd::arithmetic::power2::{pow2, lemma_pow2_pos, lemma_pow2_unfold, lemma2_to64};
use vstd::arithmetic::div_mod::{lemma_div_denominator, lemma_div_pos_is_pos};
use crate::arith::{ceil_log2, lemma_ceil_log2, lemma_ceil_log2_least};
use crate::grid::in_grid;
use crate::hi_z::{
    greatest, halved, least, lemma_reduce_at, lemma_reduce_wf, level_side, top_level,
    DepthRange, LevelView,
};

verus! {

/// The sides of a pyramid never vanish and never grow.
pub proof fn lemma_level_side_bounds(side: nat, level: nat)
    requires
        side >= 1,
    ensures
        1 <= level_side(side, level) <= side,
    decreases level,
{
    if level > 0 {
        lemma_level_side_bounds(side, (level - 1) as nat);
    }
}

/// Level `level` is wide enough to hold the block index of every pixel.
pub proof fn lemma_level_side_covers(side: nat, level: nat, x: int)
    requires
        0 <= x < side,
    ensures
        0 <= x / (pow2(level) as int) < level_side(side, level),
    decreases level,
{
    lemma_pow2_pos(level);
    lemma_div_pos_is_pos(x, pow2(level) as int);
    if level == 0 {
        lemma2_to64();
    } else {
        let p = pow2((level - 1) as nat) as int;
        lemma_pow2_pos((level - 1) as nat);
        lemma_pow2_unfold(level);
        lemma_level_side_covers(side, (level - 1) as nat, x);
        lemma_div_denominator(x, p, 2);
        assert(p * 2 == pow2(level));
    }
}

/// Every level of the pyramid is well formed and has the sides of its level.
pub proof fn lemma_pyramid_level_wf(base: LevelView, level: nat)
    requires
        base.wf(),
    ensures
        base.pyramid_level(level).wf(),
        base.pyramid_level(level).width == level_side(base.width, level),
        base.pyramid_level(level).height == level_side(base.height, level),
    decreases level,
{
    if level > 0 {
        lemma_pyramid_level_wf(base, (level - 1) as nat);
        lemma_reduce_wf(base.pyramid_level((level - 1) as nat));
    }
}

/// Halving a side lowers the ceiling of its binary logarithm by one.
proof fn lemma_halved_log(side: nat)
    requires
        side >= 1,
    ensures
        ceil_log2(halved(side)) == if ceil_log2(side) == 0 {
            0
        } else {
            (ceil_log2(side) - 1) as nat
        },
{
    reveal_with_fuel(ceil_log2, 2);
}

/// The ceiling of the binary logarithm of a side drops by one per level
/// until it is zero.
proof fn lemma_level_side_log(side: nat, level: nat)
    requires
        side >= 1,
    ensures
        ceil_log2(level_side(side, level)) == if level <= ceil_log2(side) {
            (ceil_log2(side) - level) as nat
        } else {
            0
        },
    decreases level,
{
    if level > 0 {
        lemma_level_side_log(side, (level - 1) as nat);
        lemma_level_side_bounds(side, (level - 1) as nat);
        lemma_halved_log(level_side(side, (level - 1) as nat));
    }
}

/// At its top level the pyramid is a single texel, and at no level before.
pub proof fn lemma_top_level_is_single_texel(width: nat, height: nat, level: nat)
    requires
        width >= 1,
        height >= 1,
    ensures
        level >= top_level(width, height) <==> level_side(width, level) == 1 && level_side(
            height,
            level,
        ) == 1,
{
    let longer = if width >= height {
        width
    } else {
        height
    };
    lemma_level_side_log(width, level);
    lemma_level_side_log(height, level);
    lemma_level_side_bounds(width, level);
    lemma_level_side_bounds(height, level);
    lemma_ceil_log2(longer);
    lemma_ceil_log2_least(width, ceil_log2(longer));
    lemma_ceil_log2_least(height, ceil_log2(longer));
    reveal_with_fuel(ceil_log2, 2);
}

/// `range` is the range of depths over the block of level-0 pixels that
/// texel `(i, j)` of level `level` covers: the pixels `(x, y)` of the grid
/// with `x / 2^level == i` and `y / 2^level == j`. Its minimum is the least
/// depth among them and its maximum the greatest.
pub open spec fn is_block_range(base: LevelView, level: nat, i: int, j: int, range: DepthRange) -> bool {
    &&& forall|x: int, y: int|
        in_grid(base.width, base.height, x, y) && x / (pow2(level) as int) == i && y / (pow2(
            level,
        ) as int) == j ==> range.min <= (#[trigger] base.at(x, y)).min && base.at(x, y).max
            <= range.max
    &&& attains_min(base, level, i, j, range.min)
    &&& attains_max(base, level, i, j, range.max)
}

/// Some pixel of the block of texel `(i, j)` of level `level` has `v` as its
/// minimum.
pub open spec fn attains_min(base: LevelView, level: nat, i: int, j: int, v: u32) -> bool {
    exists|x: int, y: int|
        in_grid(base.width, base.height, x, y) && x / (pow2(level) as int) == i && y / (pow2(
            level,
        ) as int) == j && (#[trigger] base.at(x, y)).min == v
}

/// Some pixel of the block of texel `(i, j)` of level `level` has `v` as its
/// maximum.
pub open spec fn attains_max(base: LevelView, level: nat, i: int, j: int, v: u32) -> bool {
    exists|x: int, y: int|
        in_grid(base.width, base.height, x, y) && x / (pow2(level) as int) == i && y / (pow2(
            level,
        ) as int) == j && (#[trigger] base.at(x, y)).max == v
}

/// A pixel in the block of a child texel lies in the block of its parent.
proof fn lemma_child_block(level: nat, c: int, i: int, x: int)
    requires
        level >= 1,
        x >= 0,
        x / (pow2((level - 1) as nat) as int) == c,
        c == 2 * i || c == 2 * i + 1,
    ensures
        x / (pow2(level) as int) == i,
{
    let p = pow2((level - 1) as nat) as int;
    lemma_pow2_pos((level - 1) as nat);
    lemma_pow2_unfold(level);
    lemma_div_denominator(x, p, 2);
    assert(p * 2 == pow2(level));
}

/// A minimum that a child texel attains on its block is attained on the
/// block of the parent.
proof fn lemma_min_rises(base: LevelView, level: nat, cx: int, cy: int, i: int, j: int, v: u32)
    requires
        level >= 1,
        attains_min(base, (level - 1) as nat, cx, cy, v),
        cx == 2 * i || cx == 2 * i + 1,
        cy == 2 * j || cy == 2 * j + 1,
    ensures
        attains_min(base, level, i, j, v),
{
    let p = pow2((level - 1) as nat) as int;
    let (x, y) = choose|x: int, y: int|
        in_grid(base.width, base.height, x, y) && x / p == cx && y / p == cy && (#[trigger] base.at(
            x,
            y,
        )).min == v;
    lemma_child_block(level, cx, i, x);
    lemma_child_block(level, cy, j, y);
}

/// A maximum that a child texel attains on its block is attained on the
/// block of the parent.
proof fn lemma_max_rises(base: LevelView, level: nat, cx: int, cy: int, i: int, j: int, v: u32)
    requires
        level >= 1,
        attains_max(base, (level - 1) as nat, cx, cy, v),
        cx == 2 * i || cx == 2 * i + 1,
        cy == 2 * j || cy == 2 * j + 1,
    ensures
        attains_max(base, level, i, j, v),
{
    let p = pow2((level - 1) as nat) as int;
    let (x, y) = choose|x: int, y: int|
        in_grid(base.width, base.height, x, y) && x / p == cx && y / p == cy && (#[trigger] base.at(
            x,
            y,
        )).max == v;
    lemma_child_block(level, cx, i, x);
    lemma_child_block(level, cy, j, y);
}

/// Every texel of every level holds the range of depths over the block of
/// level-0 pixels that it covers: its minimum is the least and its maximum
/// the greatest depth of the `2^level` by `2^level` block, cut off at the
/// edge of the grid.
pub proof fn lemma_level_aggregates_block(base: LevelView, level: nat, i: int, j: int)
    requires
        base.wf(),
        in_grid(level_side(base.width, level), level_side(base.height, level), i, j),
    ensures
        is_block_range(base, level, i, j, base.pyramid_level(level).at(i, j)),
    decreases level,
{
    if level == 0 {
        lemma2_to64();
        assert(in_grid(base.width, base.height, i, j) && i / 1 == i && j / 1 == j);
        let here = base.at(i, j);
        assert(attains_min(base, 0, i, j, here.min));
        assert(attains_max(base, 0, i, j, here.max));
    } else {
        let below = (level - 1) as nat;
        let prev = base.pyramid_level(below);
        lemma_pyramid_level_wf(base, below);
        lemma_pyramid_level_wf(base, level);
        lemma_reduce_at(prev, i, j);
        let p = pow2(below) as int;
        lemma_pow2_pos(below);
        let x0 = 2 * i;
        let y0 = 2 * j;
        let x1 = LevelView::clamped(prev.width, i);
        let y1 = LevelView::clamped(prev.height, j);
        lemma_level_aggregates_block(base, below, x0, y0);
        lemma_level_aggregates_block(base, below, x1, y0);
        lemma_level_aggregates_block(base, below, x0, y1);
        lemma_level_aggregates_block(base, below, x1, y1);
        let a = prev.at(x0, y0);
        let b = prev.at(x1, y0);
        let c = prev.at(x0, y1);
        let d = prev.at(x1, y1);
        let range = base.pyramid_level(level).at(i, j);
        assert(range.min == least(least(a.min, b.min), least(c.min, d.min)));
        assert(range.max == greatest(greatest(a.max, b.max), greatest(c.max, d.max)));
        assert forall|x: int, y: int|
            in_grid(base.width, base.height, x, y) && x / (pow2(level) as int) == i && y / (pow2(
                level,
            ) as int) == j implies range.min <= (#[trigger] base.at(x, y)).min && base.at(x, y).max
            <= range.max by {
            let cx = x / p;
            let cy = y / p;
            lemma_level_side_covers(base.width, below, x);
            lemma_level_side_covers(base.height, below, y);
            lemma_pow2_unfold(level);
            lemma_div_denominator(x, p, 2);
            lemma_div_denominator(y, p, 2);
            assert(p * 2 == pow2(level));
            assert(cx / 2 == i && cy / 2 == j);
            assert(cx == x0 || cx == x1);
            assert(cy == y0 || cy == y1);
        }
        // The least minimum is the minimum of one child, and so attained.
        if range.min == a.min {
            lemma_min_rises(base, level, x0, y0, i, j, range.min);
        } else if range.min == b.min {
            lemma_min_rises(base, level, x1, y0, i, j, range.min);
        } else if range.min == c.min {
            lemma_min_rises(base, level, x0, y1, i, j, range.min);
        } else {
            lemma_min_rises(base, level, x1, y1, i, j, range.min);
        }
        if range.max == a.max {
            lemma_max_rises(base, level, x0, y0, i, j, range.max);
        } else if range.max == b.max {
            lemma_max_rises(base, level, x1, y0, i, j, range.max);
        } else if range.max == c.max {
            lemma_max_rises(base, level, x0, y1, i, j, range.max);
        } else {
            lemma_max_rises(base, level, x1, y1, i, j, range.max);
        }
    }
}

} // verus!
