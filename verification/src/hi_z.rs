use vstd::prelude::*;
use crate::arith::{ceil_log2, ceil_log2_u32};
use crate::config::ConfigError;
use crate::grid::{
    cell_index, check_grid, grid_fault, in_grid, index_of, lemma_cell_index, lemma_index_cell,
    sides_fault, MAX_SIDE,
};

verus! {

/// The least and the greatest depth of a block of pixels.
#[derive(Debug, Clone, Copy, PartialEq, Eq, Structural)]
pub struct DepthRange {
    pub min: u32,
    pub max: u32,
}

/// The side of the next coarser level: half the side, rounded up, and never
/// less than one.
pub open spec fn halved(side: nat) -> nat {
    if side <= 1 {
        1
    } else {
        (side + 1) / 2
    }
}

/// The side of level `level` of a pyramid whose level 0 has side `side`.
pub open spec fn level_side(side: nat, level: nat) -> nat
    decreases level,
{
    if level == 0 {
        side
    } else {
        halved(level_side(side, (level - 1) as nat))
    }
}

/// The level at which a grid of the given sides has shrunk to one texel.
pub open spec fn top_level(width: nat, height: nat) -> nat {
    ceil_log2(
        if width >= height {
            width
        } else {
            height
        },
    )
}

/// The last level that is built: the configured maximum, or the level of
/// the single texel where that comes first.
pub open spec fn last_level(width: nat, height: nat, max_level: nat) -> nat {
    if max_level <= top_level(width, height) {
        max_level
    } else {
        top_level(width, height)
    }
}

/// One level of a depth pyramid as a mathematical value.
pub struct LevelView {
    pub width: nat,
    pub height: nat,
    pub cells: Seq<DepthRange>,
}

impl LevelView {
    /// The level has one value per texel and its sides are within range.
    pub open spec fn wf(self) -> bool {
        &&& 1 <= self.width <= MAX_SIDE
        &&& 1 <= self.height <= MAX_SIDE
        &&& self.cells.len() == self.width * self.height
    }

    /// The value of texel `(x, y)`.
    pub open spec fn at(self, x: int, y: int) -> DepthRange
        recommends
            in_grid(self.width, self.height, x, y),
    {
        self.cells[cell_index(self.width, x, y)]
    }

    /// The second column, or row, of the block of texel `i` of the next
    /// level, clamped to the last one of this level.
    pub open spec fn clamped(side: nat, i: int) -> int {
        if 2 * i + 1 < side {
            2 * i + 1
        } else {
            side - 1
        }
    }

    /// The value of texel `(x, y)` of the next coarser level: the least
    /// minimum and the greatest maximum of its block of two by two texels,
    /// a block that is narrower or lower at the edge.
    pub open spec fn reduce_cell(self, x: int, y: int) -> DepthRange {
        let x1 = Self::clamped(self.width, x);
        let y1 = Self::clamped(self.height, y);
        let a = self.at(2 * x, 2 * y);
        let b = self.at(x1, 2 * y);
        let c = self.at(2 * x, y1);
        let d = self.at(x1, y1);
        DepthRange {
            min: least(least(a.min, b.min), least(c.min, d.min)),
            max: greatest(greatest(a.max, b.max), greatest(c.max, d.max)),
        }
    }

    /// The next coarser level.
    pub open spec fn reduce(self) -> LevelView {
        LevelView {
            width: halved(self.width),
            height: halved(self.height),
            cells: Seq::new(
                halved(self.width) * halved(self.height),
                |i: int| self.reduce_cell(i % (halved(self.width) as int), i / (halved(self.width) as int)),
            ),
        }
    }

    /// Level `level` of the pyramid over this level.
    pub open spec fn pyramid_level(self, level: nat) -> LevelView
        decreases level,
    {
        if level == 0 {
            self
        } else {
            self.pyramid_level((level - 1) as nat).reduce()
        }
    }
}

/// The lesser of two depths.
pub open spec fn least(a: u32, b: u32) -> u32 {
    if a <= b {
        a
    } else {
        b
    }
}

/// The greater of two depths.
pub open spec fn greatest(a: u32, b: u32) -> u32 {
    if a >= b {
        a
    } else {
        b
    }
}

/// Level 0 of the pyramid over a depth buffer: every texel holds the depth
/// of its pixel as both minimum and maximum.
pub open spec fn base_level(width: nat, height: nat, depth: Seq<u32>) -> LevelView {
    LevelView {
        width,
        height,
        cells: Seq::new(depth.len(), |i: int| DepthRange { min: depth[i], max: depth[i] }),
    }
}

/// The next coarser level of a well-formed level is well formed.
pub proof fn lemma_reduce_wf(level: LevelView)
    requires
        level.wf(),
    ensures
        level.reduce().wf(),
        level.reduce().width == halved(level.width),
        level.reduce().height == halved(level.height),
{
}

/// A texel of the next coarser level takes its value from the block below.
pub proof fn lemma_reduce_at(level: LevelView, x: int, y: int)
    requires
        level.wf(),
        in_grid(halved(level.width), halved(level.height), x, y),
    ensures
        level.reduce().at(x, y) == level.reduce_cell(x, y),
{
    lemma_cell_index(halved(level.width), halved(level.height), x, y);
}

/// One level of a depth pyramid.
pub struct DepthLevel {
    width: u32,
    height: u32,
    cells: Vec<DepthRange>,
}

impl View for DepthLevel {
    type V = LevelView;

    closed spec fn view(&self) -> LevelView {
        LevelView { width: self.width as nat, height: self.height as nat, cells: self.cells@ }
    }
}

/// Half of `side`, rounded up, and never less than one.
pub fn halve(side: u32) -> (h: u32)
    ensures
        h == halved(side as nat),
{
    if side <= 1 {
        1
    } else {
        side / 2 + side % 2
    }
}

impl DepthLevel {
    #[verifier::type_invariant]
    spec fn inv(self) -> bool {
        self@.wf()
    }

    /// Level 0: a copy of the depth buffer in which every texel is both
    /// the minimum and the maximum of its single pixel.
    pub fn from_depth(width: u32, height: u32, depth: &Vec<u32>) -> (r: Result<DepthLevel, ConfigError>)
        ensures
            match r {
                Ok(level) => {
                    &&& grid_fault(width as nat, height as nat, depth.len() as nat) is None
                    &&& level@ == base_level(width as nat, height as nat, depth@)
                    &&& level@.wf()
                },
                Err(e) => grid_fault(width as nat, height as nat, depth.len() as nat) == Some(e),
            },
    {
        match check_grid(width, height, depth.len()) {
            Err(e) => {
                return Err(e);
            },
            Ok(_) => {},
        }
        let n: usize = depth.len();
        let mut cells: Vec<DepthRange> = Vec::new();
        let mut i: usize = 0;
        let ghost target = base_level(width as nat, height as nat, depth@);
        while i < n
            invariant
                i <= n,
                n == depth.len(),
                cells.len() == i,
                target == base_level(width as nat, height as nat, depth@),
                forall|j: int| 0 <= j < i ==> cells[j] == target.cells[j],
            decreases n - i,
        {
            cells.push(DepthRange { min: depth[i], max: depth[i] });
            i = i + 1;
        }
        assert(cells@ =~= target.cells);
        Ok(DepthLevel { width, height, cells })
    }

    /// Width of the level in texels.
    pub fn width(&self) -> (w: u32)
        ensures
            w == self@.width,
            w >= 1,
    {
        proof {
            use_type_invariant(self);
        }
        self.width
    }

    /// Height of the level in texels.
    pub fn height(&self) -> (h: u32)
        ensures
            h == self@.height,
            h >= 1,
    {
        proof {
            use_type_invariant(self);
        }
        self.height
    }

    /// The value of texel `(x, y)`, or `None` outside the level.
    pub fn get(&self, x: u32, y: u32) -> (r: Option<DepthRange>)
        ensures
            match r {
                Some(v) => in_grid(self@.width, self@.height, x as int, y as int) && v == self@.at(
                    x as int,
                    y as int,
                ),
                None => !in_grid(self@.width, self@.height, x as int, y as int),
            },
    {
        proof {
            use_type_invariant(self);
        }
        if x < self.width && y < self.height {
            assert(self.cells.len() <= usize::MAX);
            Some(self.cells[index_of(self.width, self.height, x, y)])
        } else {
            None
        }
    }

    /// The value of a texel of the level.
    fn texel(&self, x: u32, y: u32) -> (v: DepthRange)
        requires
            x < self@.width,
            y < self@.height,
        ensures
            v == self@.at(x as int, y as int),
    {
        proof {
            use_type_invariant(self);
        }
        assert(self.cells.len() <= usize::MAX);
        self.cells[index_of(self.width, self.height, x, y)]
    }

    /// The value of texel `(x, y)` of the next coarser level.
    fn reduce_cell(&self, x: u32, y: u32) -> (v: DepthRange)
        requires
            x < halved(self@.width),
            y < halved(self@.height),
        ensures
            v == self@.reduce_cell(x as int, y as int),
    {
        proof {
            use_type_invariant(self);
        }
        let x0: u32 = 2 * x;
        let y0: u32 = 2 * y;
        let x1: u32 = if x0 + 1 < self.width {
            x0 + 1
        } else {
            self.width - 1
        };
        let y1: u32 = if y0 + 1 < self.height {
            y0 + 1
        } else {
            self.height - 1
        };
        let a = self.texel(x0, y0);
        let b = self.texel(x1, y0);
        let c = self.texel(x0, y1);
        let d = self.texel(x1, y1);
        DepthRange {
            min: lesser(lesser(a.min, b.min), lesser(c.min, d.min)),
            max: greater(greater(a.max, b.max), greater(c.max, d.max)),
        }
    }

    /// The next coarser level: every texel aggregates its block of two by
    /// two texels of this level. This level is only read.
    pub fn reduce(&self) -> (out: DepthLevel)
        ensures
            out@ == self@.reduce(),
            out@.wf(),
    {
        proof {
            use_type_invariant(self);
        }
        let width: u32 = halve(self.width);
        let height: u32 = halve(self.height);
        let w: usize = width as usize;
        assert((width as int) * (height as int) <= (self.width as int) * (self.height as int)) by (nonlinear_arith)
            requires
                0 <= width <= self.width,
                0 <= height <= self.height,
        ;
        assert(self.cells.len() <= usize::MAX);
        let n: usize = (width as usize) * (height as usize);
        let mut cells: Vec<DepthRange> = Vec::new();
        let mut i: usize = 0;
        let ghost target = self@.reduce();
        while i < n
            invariant
                i <= n,
                n == width * height,
                w == width,
                width == halved(self@.width),
                height == halved(self@.height),
                self@.wf(),
                cells.len() == i,
                target == self@.reduce(),
                forall|j: int| 0 <= j < i ==> cells[j] == target.cells[j],
            decreases n - i,
        {
            proof {
                lemma_index_cell(width as nat, height as nat, i as int);
            }
            let cell = self.reduce_cell((i % w) as u32, (i / w) as u32);
            cells.push(cell);
            i = i + 1;
        }
        assert(cells@ =~= target.cells);
        DepthLevel { width, height, cells }
    }
}

/// The lesser of two depths.
pub fn lesser(a: u32, b: u32) -> (m: u32)
    ensures
        m == least(a, b),
{
    if a <= b {
        a
    } else {
        b
    }
}

/// The greater of two depths.
pub fn greater(a: u32, b: u32) -> (m: u32)
    ensures
        m == greatest(a, b),
{
    if a >= b {
        a
    } else {
        b
    }
}

/// The level up to which a sampler may read while nothing is being built:
/// the interface's own default.
pub const UNCLAMPED_LEVEL: u32 = 1000;

/// The depth pyramid of a depth buffer: level 0 and every coarser level up
/// to the configured maximum, or up to the level of a single texel where
/// that comes first.
pub fn build_pyramid(width: u32, height: u32, depth: &Vec<u32>, max_level: u32) -> (r: Result<
    Vec<DepthLevel>,
    ConfigError,
>)
    ensures
        match r {
            Ok(levels) => {
                &&& grid_fault(width as nat, height as nat, depth.len() as nat) is None
                &&& levels.len() == last_level(width as nat, height as nat, max_level as nat) + 1
                &&& forall|k: int|
                    0 <= k < levels.len() ==> (#[trigger] levels[k])@ == base_level(
                        width as nat,
                        height as nat,
                        depth@,
                    ).pyramid_level(k as nat)
            },
            Err(e) => grid_fault(width as nat, height as nat, depth.len() as nat) == Some(e),
        },
{
    let base = match DepthLevel::from_depth(width, height, depth) {
        Ok(base) => base,
        Err(e) => {
            return Err(e);
        },
    };
    let top: u32 = ceil_log2_u32(
        if width >= height {
            width
        } else {
            height
        },
    );
    let last: u32 = if max_level <= top {
        max_level
    } else {
        top
    };
    let ghost origin = base@;
    let mut levels: Vec<DepthLevel> = Vec::new();
    levels.push(base);
    let mut k: u32 = 0;
    while k < last
        invariant
            k <= last <= 32,
            levels.len() == k + 1,
            forall|j: int| 0 <= j <= k ==> (#[trigger] levels[j])@ == origin.pyramid_level(j as nat),
        decreases last - k,
    {
        let next = levels[k as usize].reduce();
        levels.push(next);
        k = k + 1;
    }
    Ok(levels)
}

/// One dispatch of the reduction kernel.
#[derive(Debug, Clone, Copy, PartialEq, Eq, Structural)]
pub struct ReductionPass {
    /// The level that the pass writes.
    pub level: u32,
    /// Width of the written level.
    pub width: u32,
    /// Height of the written level.
    pub height: u32,
    /// Width of the level below, which the pass reads.
    pub source_width: u32,
    /// Height of the level below.
    pub source_height: u32,
    /// The coarsest level that the sampler may read during the pass.
    pub max_readable_level: u32,
}

/// The pass that writes level `level`, for `level >= 1`.
pub open spec fn reduction_pass_at(width: nat, height: nat, level: nat) -> ReductionPass
    recommends
        level >= 1,
{
    ReductionPass {
        level: level as u32,
        width: level_side(width, level) as u32,
        height: level_side(height, level) as u32,
        source_width: level_side(width, (level - 1) as nat) as u32,
        source_height: level_side(height, (level - 1) as nat) as u32,
        max_readable_level: (level - 1) as u32,
    }
}

/// The passes that build the levels above level 0, in the order in which
/// they run. While a level is written only finer levels can be read; after
/// the last pass the sampler's limit goes back to `UNCLAMPED_LEVEL`.
pub fn reduction_passes(width: u32, height: u32, max_level: u32) -> (r: Result<
    Vec<ReductionPass>,
    ConfigError,
>)
    ensures
        match r {
            Ok(passes) => {
                &&& sides_fault(width as nat, height as nat) is None
                &&& passes.len() == last_level(width as nat, height as nat, max_level as nat)
                &&& forall|i: int|
                    0 <= i < passes.len() ==> passes[i] == reduction_pass_at(
                        width as nat,
                        height as nat,
                        (i + 1) as nat,
                    )
                &&& forall|i: int|
                    0 <= i < passes.len() ==> (#[trigger] passes[i]).max_readable_level < passes[i].level
            },
            Err(e) => sides_fault(width as nat, height as nat) == Some(e),
        },
{
    if width == 0 || height == 0 {
        return Err(ConfigError::EmptyGrid);
    }
    if width > MAX_SIDE || height > MAX_SIDE {
        return Err(ConfigError::TooLarge);
    }
    let top: u32 = ceil_log2_u32(
        if width >= height {
            width
        } else {
            height
        },
    );
    let last: u32 = if max_level <= top {
        max_level
    } else {
        top
    };
    let mut passes: Vec<ReductionPass> = Vec::new();
    let mut level: u32 = 0;
    let mut w: u32 = width;
    let mut h: u32 = height;
    while level < last
        invariant
            level <= last <= 32,
            passes.len() == level,
            w == level_side(width as nat, level as nat),
            h == level_side(height as nat, level as nat),
            forall|i: int|
                0 <= i < level ==> passes[i] == reduction_pass_at(
                    width as nat,
                    height as nat,
                    (i + 1) as nat,
                ),
            forall|i: int| 0 <= i < level ==> (#[trigger] passes[i]).max_readable_level < passes[i].level,
        decreases last - level,
    {
        let next_w: u32 = halve(w);
        let next_h: u32 = halve(h);
        passes.push(
            ReductionPass {
                level: level + 1,
                width: next_w,
                height: next_h,
                source_width: w,
                source_height: h,
                max_readable_level: level,
            },
        );
        w = next_w;
        h = next_h;
        level = level + 1;
    }
    Ok(passes)
}

} // verus!
