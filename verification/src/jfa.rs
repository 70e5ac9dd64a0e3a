use vstd::prelude::*;
use vstd::arithmetic::power2::{lemma2_to64, lemma_pow2_strictly_increases, pow2};
use crate::arith::{ceil_log2, ceil_log2_u32, lemma_ceil_log2_least, power_of_two};
use crate::config::ConfigError;
use crate::pingpong::{read_slot, slots_for_pass, write_slot, Slot};
use crate::grid::{
    cell_index, check_grid, grid_fault, in_grid, index_of, lemma_cell_index, lemma_index_cell,
    sides_fault, MAX_SIDE,
};

verus! {

/// What a cell knows of its nearest seed: the seed's coordinates, or nothing.
pub type Nearest = Option<(u32, u32)>;

/// Squared Euclidean distance from cell `(x, y)` to the seed `s`.
pub open spec fn distance_squared(x: int, y: int, s: (u32, u32)) -> int {
    (x - s.0) * (x - s.0) + (y - s.1) * (y - s.1)
}

/// The nearer of two candidates for cell `(x, y)`; on a tie, and when the
/// newcomer knows no seed, the incumbent stays.
pub open spec fn nearer(x: int, y: int, incumbent: Nearest, newcomer: Nearest) -> Nearest {
    match newcomer {
        None => incumbent,
        Some(c) => match incumbent {
            None => Some(c),
            Some(b) => if distance_squared(x, y, c) < distance_squared(x, y, b) {
                Some(c)
            } else {
                Some(b)
            },
        },
    }
}

/// Horizontal direction of the `i`-th of the nine candidates of a cell. The
/// candidates are enumerated row by row, from `(-1, -1)` to `(1, 1)`; the
/// cell itself is the fifth.
pub open spec fn step_x(i: int) -> int {
    i % 3 - 1
}

/// Vertical direction of the `i`-th candidate.
pub open spec fn step_y(i: int) -> int {
    i / 3 - 1
}

/// A nearest-seed field as a mathematical value.
pub struct FieldView {
    pub width: nat,
    pub height: nat,
    pub cells: Seq<Nearest>,
}

impl FieldView {
    /// The field has one value per cell, its sides are within range, and
    /// every seed it names is one of its cells.
    pub open spec fn wf(self) -> bool {
        &&& 1 <= self.width <= MAX_SIDE
        &&& 1 <= self.height <= MAX_SIDE
        &&& self.cells.len() == self.width * self.height
        &&& forall|i: int|
            0 <= i < self.cells.len() ==> (#[trigger] self.cells[i] matches Some(s) ==> in_grid(
                self.width,
                self.height,
                s.0 as int,
                s.1 as int,
            ))
    }

    /// What cell `(x, y)` knows; a position outside the grid knows nothing.
    pub open spec fn at(self, x: int, y: int) -> Nearest {
        if in_grid(self.width, self.height, x, y) {
            self.cells[cell_index(self.width, x, y)]
        } else {
            None
        }
    }

    /// The best of the first `n` candidates of cell `(x, y)` at jump
    /// distance `jump`: the first one in enumeration order among those at
    /// the least distance.
    pub open spec fn best_of(self, x: int, y: int, jump: int, n: nat) -> Nearest
        decreases n,
    {
        if n == 0 {
            None
        } else {
            let i = (n - 1) as int;
            nearer(
                x,
                y,
                self.best_of(x, y, jump, (n - 1) as nat),
                self.at(x + step_x(i) * jump, y + step_y(i) * jump),
            )
        }
    }

    /// What cell `(x, y)` knows after a flood pass at jump distance `jump`.
    pub open spec fn flood_cell(self, x: int, y: int, jump: int) -> Nearest {
        self.best_of(x, y, jump, 9)
    }

    /// The field after one flood pass at jump distance `jump`.
    pub open spec fn flood_step(self, jump: int) -> FieldView {
        FieldView {
            width: self.width,
            height: self.height,
            cells: Seq::new(
                self.cells.len(),
                |i: int| self.flood_cell(i % (self.width as int), i / (self.width as int), jump),
            ),
        }
    }

    /// The field after the flood passes at jump distances `2^k`, `2^(k-1)`,
    /// down to `1`.
    pub open spec fn flood_from(self, k: nat) -> FieldView
        decreases k,
    {
        let stepped = self.flood_step(pow2(k) as int);
        if k == 0 {
            stepped
        } else {
            stepped.flood_from((k - 1) as nat)
        }
    }

    /// The exponent of the first jump distance: the ceiling of the binary
    /// logarithm of the longer side.
    pub open spec fn first_exponent(self) -> nat {
        ceil_log2(
            if self.width >= self.height {
                self.width
            } else {
                self.height
            },
        )
    }

    /// The field after the full sequence of flood passes.
    pub open spec fn flooded(self) -> FieldView {
        self.flood_from(self.first_exponent())
    }
}

/// The seeded field of an occupancy signal: an occupied cell is its own
/// nearest seed, every other cell knows none.
pub open spec fn seeded(width: nat, height: nat, occupied: Seq<bool>) -> FieldView {
    FieldView {
        width,
        height,
        cells: Seq::new(
            occupied.len(),
            |i: int|
                if occupied[i] {
                    Some(((i % (width as int)) as u32, (i / (width as int)) as u32))
                } else {
                    None
                },
        ),
    }
}

/// The distance field of a nearest-seed field, as squared distances: `None`
/// marks a cell for which no seed is known.
pub open spec fn finalized(field: FieldView) -> Seq<Option<u64>> {
    Seq::new(
        field.cells.len(),
        |i: int|
            match field.cells[i] {
                Some(s) => Some(
                    distance_squared(i % (field.width as int), i / (field.width as int), s) as u64,
                ),
                None => None,
            },
    )
}

/// A flood pass keeps the sides of the field and gives each cell the best
/// of its nine candidates.
pub proof fn lemma_flood_step_at(field: FieldView, jump: int, x: int, y: int)
    requires
        field.wf(),
        in_grid(field.width, field.height, x, y),
    ensures
        field.flood_step(jump).at(x, y) == field.flood_cell(x, y, jump),
{
    lemma_cell_index(field.width, field.height, x, y);
}

/// Squared Euclidean distance from cell `(x, y)` to the seed `s`.
pub fn squared_distance(x: u32, y: u32, s: (u32, u32)) -> (d: u64)
    requires
        x <= MAX_SIDE,
        y <= MAX_SIDE,
        s.0 <= MAX_SIDE,
        s.1 <= MAX_SIDE,
    ensures
        d == distance_squared(x as int, y as int, s),
        d <= 0x7fff_fffe_0000_0002,
{
    let dx: u64 = if x >= s.0 {
        (x - s.0) as u64
    } else {
        (s.0 - x) as u64
    };
    let dy: u64 = if y >= s.1 {
        (y - s.1) as u64
    } else {
        (s.1 - y) as u64
    };
    assert(dx * dx <= 0x3fff_ffff_0000_0001 && dx * dx == (x - s.0) * (x - s.0)) by (nonlinear_arith)
        requires
            0 <= dx <= 0x7fff_ffff,
            dx == x - s.0 || dx == s.0 - x,
    ;
    assert(dy * dy <= 0x3fff_ffff_0000_0001 && dy * dy == (y - s.1) * (y - s.1)) by (nonlinear_arith)
        requires
            0 <= dy <= 0x7fff_ffff,
            dy == y - s.1 || dy == s.1 - y,
    ;
    dx * dx + dy * dy
}

/// A grid in which every cell holds the coordinates of the nearest seed that
/// it has come to know of.
pub struct SeedField {
    width: u32,
    height: u32,
    cells: Vec<Nearest>,
}

impl View for SeedField {
    type V = FieldView;

    closed spec fn view(&self) -> FieldView {
        FieldView { width: self.width as nat, height: self.height as nat, cells: self.cells@ }
    }
}

impl SeedField {
    #[verifier::type_invariant]
    spec fn inv(self) -> bool {
        self@.wf()
    }

    /// Seed pass: every occupied cell becomes its own nearest seed, every
    /// other cell knows none.
    pub fn from_occupancy(width: u32, height: u32, occupied: &Vec<bool>) -> (r: Result<
        SeedField,
        ConfigError,
    >)
        ensures
            match r {
                Ok(f) => {
                    &&& grid_fault(width as nat, height as nat, occupied.len() as nat) is None
                    &&& f@ == seeded(width as nat, height as nat, occupied@)
                    &&& f@.wf()
                },
                Err(e) => grid_fault(width as nat, height as nat, occupied.len() as nat) == Some(e),
            },
    {
        match check_grid(width, height, occupied.len()) {
            Err(e) => {
                return Err(e);
            },
            Ok(_) => {},
        }
        let n: usize = occupied.len();
        let w: usize = width as usize;
        let mut cells: Vec<Nearest> = Vec::new();
        let mut i: usize = 0;
        let ghost target = seeded(width as nat, height as nat, occupied@);
        while i < n
            invariant
                i <= n,
                n == occupied.len(),
                n == width * height,
                w == width,
                1 <= width <= MAX_SIDE,
                1 <= height <= MAX_SIDE,
                cells.len() == i,
                target == seeded(width as nat, height as nat, occupied@),
                forall|j: int| 0 <= j < i ==> cells[j] == target.cells[j],
                forall|j: int|
                    0 <= j < i ==> (#[trigger] cells[j] matches Some(s) ==> in_grid(
                        width as nat,
                        height as nat,
                        s.0 as int,
                        s.1 as int,
                    )),
            decreases n - i,
        {
            proof {
                lemma_index_cell(width as nat, height as nat, i as int);
            }
            let cell: Nearest = if occupied[i] {
                Some(((i % w) as u32, (i / w) as u32))
            } else {
                None
            };
            cells.push(cell);
            i = i + 1;
        }
        assert(cells@ =~= target.cells);
        Ok(SeedField { width, height, cells })
    }

    /// Width of the grid in cells.
    pub fn width(&self) -> (w: u32)
        ensures
            w == self@.width,
    {
        self.width
    }

    /// Height of the grid in cells.
    pub fn height(&self) -> (h: u32)
        ensures
            h == self@.height,
    {
        self.height
    }

    /// What cell `(x, y)` knows; a position outside the grid knows nothing.
    pub fn nearest(&self, x: u32, y: u32) -> (n: Nearest)
        ensures
            n == self@.at(x as int, y as int),
    {
        proof {
            use_type_invariant(self);
        }
        if x < self.width && y < self.height {
            assert(self.cells.len() <= usize::MAX);
            let i = index_of(self.width, self.height, x, y);
            self.cells[i]
        } else {
            None
        }
    }

    /// What the position `(x, y)` knows, for a position that may lie outside
    /// the grid on any side.
    fn sample(&self, x: i64, y: i64) -> (n: Nearest)
        ensures
            n == self@.at(x as int, y as int),
            n matches Some(s) ==> in_grid(self@.width, self@.height, s.0 as int, s.1 as int),
    {
        proof {
            use_type_invariant(self);
        }
        if 0 <= x && x < self.width as i64 && 0 <= y && y < self.height as i64 {
            assert(self.cells.len() <= usize::MAX);
            let i = index_of(self.width, self.height, x as u32, y as u32);
            self.cells[i]
        } else {
            None
        }
    }

    /// What cell `(x, y)` knows after a flood pass at jump distance `jump`.
    fn flood_cell(&self, x: u32, y: u32, jump: u32) -> (best: Nearest)
        requires
            x < self@.width,
            y < self@.height,
        ensures
            best == self@.flood_cell(x as int, y as int, jump as int),
            best matches Some(s) ==> in_grid(self@.width, self@.height, s.0 as int, s.1 as int),
    {
        proof {
            use_type_invariant(self);
        }
        let mut best: Nearest = None;
        let mut c: u8 = 0;
        while c < 9
            invariant
                c <= 9,
                x < self@.width,
                y < self@.height,
                self@.wf(),
                best == self@.best_of(x as int, y as int, jump as int, c as nat),
                best matches Some(s) ==> in_grid(self@.width, self@.height, s.0 as int, s.1 as int),
            decreases 9 - c,
        {
            let sx: i64 = (c % 3) as i64 - 1;
            let sy: i64 = (c / 3) as i64 - 1;
            assert(sx * (jump as i64) == step_x(c as int) * (jump as int) && -0x1_0000_0000 < sx * (jump as i64)
                < 0x1_0000_0000) by (nonlinear_arith)
                requires
                    sx == step_x(c as int),
                    -1 <= sx <= 1,
                    0 <= jump <= 0xffff_ffff,
            ;
            assert(sy * (jump as i64) == step_y(c as int) * (jump as int) && -0x1_0000_0000 < sy * (jump as i64)
                < 0x1_0000_0000) by (nonlinear_arith)
                requires
                    sy == step_y(c as int),
                    -1 <= sy <= 1,
                    0 <= jump <= 0xffff_ffff,
            ;
            let candidate = self.sample(x as i64 + sx * (jump as i64), y as i64 + sy * (jump as i64));
            best =
            match candidate {
                None => best,
                Some(s) => match best {
                    None => Some(s),
                    Some(b) => if squared_distance(x, y, s) < squared_distance(x, y, b) {
                        Some(s)
                    } else {
                        Some(b)
                    },
                },
            };
            c = c + 1;
        }
        best
    }

    /// One flood pass at jump distance `jump`: every cell looks at itself
    /// and at its eight neighbours `jump` cells away, and keeps the nearest
    /// seed that any of them knows. The result is a new field; this one is
    /// only read.
    pub fn flood_pass(&self, jump: u32) -> (out: SeedField)
        ensures
            out@ == self@.flood_step(jump as int),
            out@.wf(),
    {
        proof {
            use_type_invariant(self);
        }
        let n: usize = self.cells.len();
        let w: usize = self.width as usize;
        let mut cells: Vec<Nearest> = Vec::new();
        let mut i: usize = 0;
        let ghost target = self@.flood_step(jump as int);
        while i < n
            invariant
                i <= n,
                n == self@.cells.len(),
                w == self@.width,
                self@.wf(),
                cells.len() == i,
                target == self@.flood_step(jump as int),
                forall|j: int| 0 <= j < i ==> cells[j] == target.cells[j],
                forall|j: int|
                    0 <= j < i ==> (#[trigger] cells[j] matches Some(s) ==> in_grid(
                        self@.width,
                        self@.height,
                        s.0 as int,
                        s.1 as int,
                    )),
            decreases n - i,
        {
            proof {
                lemma_index_cell(self@.width, self@.height, i as int);
            }
            let cell = self.flood_cell((i % w) as u32, (i / w) as u32, jump);
            cells.push(cell);
            i = i + 1;
        }
        assert(cells@ =~= target.cells);
        SeedField { width: self.width, height: self.height, cells }
    }

    /// The full sequence of flood passes, at jump distances that halve from
    /// the first power of two that reaches the longer side down to one.
    pub fn flood(&self) -> (out: SeedField)
        ensures
            out@ == self@.flooded(),
            out@.wf(),
    {
        proof {
            use_type_invariant(self);
        }
        let longer: u32 = if self.width >= self.height {
            self.width
        } else {
            self.height
        };
        let first: u32 = ceil_log2_u32(longer);
        proof {
            lemma2_to64();
            lemma_ceil_log2_least(longer as nat, 31);
        }
        let mut remaining: u32 = first;
        let mut current: SeedField = self.flood_pass(jump_distance(remaining));
        while remaining > 0
            invariant
                remaining <= 31,
                current@.wf(),
                self@.flooded() == if remaining == 0 {
                    current@
                } else {
                    current@.flood_from((remaining - 1) as nat)
                },
            decreases remaining,
        {
            remaining = remaining - 1;
            current = current.flood_pass(jump_distance(remaining));
        }
        current
    }

    /// Finalize pass: the squared distance from every cell to the seed that
    /// it knows, and `None` for a cell that knows no seed.
    pub fn distances(&self) -> (d: Vec<Option<u64>>)
        ensures
            d@ == finalized(self@),
    {
        proof {
            use_type_invariant(self);
        }
        let n: usize = self.cells.len();
        let w: usize = self.width as usize;
        let mut out: Vec<Option<u64>> = Vec::new();
        let mut i: usize = 0;
        let ghost target = finalized(self@);
        while i < n
            invariant
                i <= n,
                n == self@.cells.len(),
                w == self@.width,
                self@.wf(),
                out.len() == i,
                target == finalized(self@),
                forall|j: int| 0 <= j < i ==> out[j] == target[j],
            decreases n - i,
        {
            proof {
                lemma_index_cell(self@.width, self@.height, i as int);
            }
            let d: Option<u64> = match self.cells[i] {
                Some(s) => Some(squared_distance((i % w) as u32, (i / w) as u32, s)),
                None => None,
            };
            out.push(d);
            i = i + 1;
        }
        assert(out@ =~= target);
        out
    }
}

/// The jump distance with exponent `k`.
pub fn jump_distance(k: u32) -> (jump: u32)
    requires
        k <= 31,
    ensures
        jump == pow2(k as nat),
{
    proof {
        lemma2_to64();
        if k < 31 {
            lemma_pow2_strictly_increases(k as nat, 31);
        }
    }
    power_of_two(k) as u32
}

/// The distance field of an occupancy signal, as squared distances: seed
/// pass, flood passes, finalize pass. A cell that no seed reaches, as in a
/// grid without seeds, holds `None`.
pub fn distance_field(width: u32, height: u32, occupied: &Vec<bool>) -> (r: Result<
    Vec<Option<u64>>,
    ConfigError,
>)
    ensures
        match r {
            Ok(d) => {
                &&& grid_fault(width as nat, height as nat, occupied.len() as nat) is None
                &&& d@ == finalized(seeded(width as nat, height as nat, occupied@).flooded())
            },
            Err(e) => grid_fault(width as nat, height as nat, occupied.len() as nat) == Some(e),
        },
{
    match SeedField::from_occupancy(width, height, occupied) {
        Ok(field) => Ok(field.flood().distances()),
        Err(e) => Err(e),
    }
}

/// One dispatch of the flood kernel.
#[derive(Debug, Clone, Copy, PartialEq, Eq, Structural)]
pub struct FloodPass {
    /// Distance, in cells, at which the eight neighbours are examined.
    pub jump: u32,
    /// The buffer that the pass samples.
    pub reads: Slot,
    /// The buffer that the pass renders into.
    pub writes: Slot,
}

/// The `index`-th flood pass when the first jump distance has exponent
/// `first`: jump distances halve from pass to pass, and the two buffers
/// exchange roles after every pass.
pub open spec fn flood_pass_at(first: nat, index: nat) -> FloodPass
    recommends
        index <= first <= 31,
{
    FloodPass {
        jump: pow2((first - index) as nat) as u32,
        reads: read_slot(index),
        writes: write_slot(index),
    }
}

/// The exponent of the first jump distance for a grid of the given sides.
pub open spec fn first_exponent_for(width: nat, height: nat) -> nat {
    ceil_log2(
        if width >= height {
            width
        } else {
            height
        },
    )
}

/// The flood passes for a grid of the given sides, in the order in which
/// they run. The seeded field is expected in `Slot::Current`.
pub fn flood_passes(width: u32, height: u32) -> (r: Result<Vec<FloodPass>, ConfigError>)
    ensures
        match r {
            Ok(passes) => {
                &&& sides_fault(width as nat, height as nat) is None
                &&& passes.len() == first_exponent_for(width as nat, height as nat) + 1
                &&& forall|i: int|
                    0 <= i < passes.len() ==> passes[i] == flood_pass_at(
                        first_exponent_for(width as nat, height as nat),
                        i as nat,
                    )
            },
            Err(e) => sides_fault(width as nat, height as nat) == Some(e),
        },
{
    if width == 0 || height == 0 {
        return Err(ConfigError::EmptyGrid);
    }
    if width > MAX_SIDE || height > MAX_SIDE {
        return Err(ConfigError::TooLarge);
    }
    let longer: u32 = if width >= height {
        width
    } else {
        height
    };
    let first: u32 = ceil_log2_u32(longer);
    proof {
        lemma2_to64();
        lemma_ceil_log2_least(longer as nat, 31);
    }
    let mut passes: Vec<FloodPass> = Vec::new();
    let mut i: u32 = 0;
    while i <= first
        invariant
            i <= first + 1,
            first <= 31,
            passes.len() == i,
            forall|j: int| 0 <= j < i ==> passes[j] == flood_pass_at(first as nat, j as nat),
        decreases first + 1 - i,
    {
        let (reads, writes) = slots_for_pass(i);
        passes.push(FloodPass { jump: jump_distance(first - i), reads, writes });
        i = i + 1;
    }
    Ok(passes)
}

/// The buffer that holds the flooded field after `pass_count` passes: the
/// one that a further pass would read.
pub fn flooded_slot(pass_count: u32) -> (s: Slot)
    ensures
        s == read_slot(pass_count as nat),
        pass_count >= 1 ==> s == write_slot((pass_count - 1) as nat),
{
    slots_for_pass(pass_count).0
}

} // verus!
