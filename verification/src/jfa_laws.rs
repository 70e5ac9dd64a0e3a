use vstd::prelude::*;
use vstd::arithmetic::power2::{pow2, lemma_pow2_pos, lemma_pow2_unfold, lemma2_to64};
use vstd::arithmetic::div_mod::{
    lemma_fundamental_div_mod, lemma_fundamental_div_mod_converse, lemma_mod_add_multiples_vanish,
    lemma_mod_multiples_basic, lemma_small_mod,
};
use crate::arith::lemma_ceil_log2;
use crate::grid::{
    cell_index, grid_fault, in_grid, lemma_cell_index, lemma_index_cell, MAX_SIDE,
};
use crate::jfa::{
    distance_squared, finalized, flood_pass_at, lemma_flood_step_at, seeded, step_x, step_y,
    FieldView,
};

verus! {

/// Every cell of the field knows either nothing or the seed `s`.
pub open spec fn knows_only(field: FieldView, s: (u32, u32)) -> bool {
    forall|x: int, y: int| #[trigger] field.at(x, y) is None || field.at(x, y) == Some(s)
}

/// The seed `s` has reached every cell whose offsets from it are multiples
/// of `2^k`, and no other seed is known anywhere.
pub open spec fn reached(field: FieldView, s: (u32, u32), k: nat) -> bool {
    &&& field.wf()
    &&& in_grid(field.width, field.height, s.0 as int, s.1 as int)
    &&& knows_only(field, s)
    &&& forall|x: int, y: int|
        in_grid(field.width, field.height, x, y) && (x - s.0) % (pow2(k) as int) == 0 && (y - s.1) % (
        pow2(k) as int) == 0 ==> #[trigger] field.at(x, y) == Some(s)
}

/// Among candidates that know only `s`, the best knows only `s`.
proof fn lemma_best_knows_only(field: FieldView, s: (u32, u32), x: int, y: int, jump: int, n: nat)
    requires
        knows_only(field, s),
    ensures
        field.best_of(x, y, jump, n) is None || field.best_of(x, y, jump, n) == Some(s),
    decreases n,
{
    if n > 0 {
        lemma_best_knows_only(field, s, x, y, jump, (n - 1) as nat);
        let i = (n - 1) as int;
        assert(field.at(x + step_x(i) * jump, y + step_y(i) * jump) is None || field.at(
            x + step_x(i) * jump,
            y + step_y(i) * jump,
        ) == Some(s));
    }
}

/// Among candidates that know only `s`, the best knows `s` as soon as one
/// candidate does.
proof fn lemma_best_finds(field: FieldView, s: (u32, u32), x: int, y: int, jump: int, n: nat, i: int)
    requires
        knows_only(field, s),
        0 <= i < n,
        field.at(x + step_x(i) * jump, y + step_y(i) * jump) == Some(s),
    ensures
        field.best_of(x, y, jump, n) == Some(s),
    decreases n,
{
    let last = (n - 1) as int;
    lemma_best_knows_only(field, s, x, y, jump, (n - 1) as nat);
    if i < last {
        lemma_best_finds(field, s, x, y, jump, (n - 1) as nat, i);
        assert(field.at(x + step_x(last) * jump, y + step_y(last) * jump) is None || field.at(
            x + step_x(last) * jump,
            y + step_y(last) * jump,
        ) == Some(s));
    }
}

/// The direction in which an offset `d` has to move by `m` so that it
/// becomes a multiple of `2 m`: not at all, or towards zero.
pub open spec fn toward(d: int, m: int) -> int {
    if d % (2 * m) == 0 {
        0
    } else if d > 0 {
        -1
    } else {
        1
    }
}

/// An offset that is a multiple of `m` becomes a multiple of `2 m` by a
/// move of `m` towards zero, or is one already.
proof fn lemma_toward(d: int, m: int)
    requires
        m >= 1,
        d % m == 0,
    ensures
        (d + toward(d, m) * m) % (2 * m) == 0,
        toward(d, m) == -1 ==> d >= m,
        toward(d, m) == 1 ==> d <= -m,
{
    let q = d / m;
    let t = toward(d, m);
    assert(t * m == if t == 0 {
        0
    } else if t == 1 {
        m
    } else {
        -m
    }) by (nonlinear_arith)
        requires
            -1 <= t <= 1,
    ;
    lemma_fundamental_div_mod(d, m);
    assert(d == m * q);
    let r = q / 2;
    lemma_fundamental_div_mod(q, 2);
    if q % 2 == 0 {
        assert(d == r * (2 * m)) by (nonlinear_arith)
            requires
                d == m * q,
                q == 2 * r,
        ;
        lemma_mod_multiples_basic(r, 2 * m);
    } else {
        assert(q == 2 * r + 1);
        assert(d == (2 * m) * r + m) by (nonlinear_arith)
            requires
                d == m * q,
                q == 2 * r + 1,
        ;
        lemma_fundamental_div_mod_converse(d, 2 * m, r, m);
        assert(d % (2 * m) == m);
        if d > 0 {
            assert(q >= 1) by (nonlinear_arith)
                requires
                    d == m * q,
                    d > 0,
                    m >= 1,
            ;
            assert(d >= m) by (nonlinear_arith)
                requires
                    d == m * q,
                    q >= 1,
                    m >= 1,
            ;
            assert(d - m == r * (2 * m)) by (nonlinear_arith)
                requires
                    d == (2 * m) * r + m,
            ;
            lemma_mod_multiples_basic(r, 2 * m);
        } else {
            assert(q <= -1) by (nonlinear_arith)
                requires
                    d == m * q,
                    d <= 0,
                    q != 0,
                    m >= 1,
            ;
            assert(d <= -m) by (nonlinear_arith)
                requires
                    d == m * q,
                    q <= -1,
                    m >= 1,
            ;
            assert(d + m == (r + 1) * (2 * m)) by (nonlinear_arith)
                requires
                    d == (2 * m) * r + m,
            ;
            lemma_mod_multiples_basic(r + 1, 2 * m);
        }
    }
}

/// A flood pass at jump distance `2^k` carries the seed from the cells at
/// multiples of `2^(k+1)` to the cells at multiples of `2^k`.
proof fn lemma_flood_step_reaches(field: FieldView, s: (u32, u32), k: nat)
    requires
        reached(field, s, k + 1),
    ensures
        reached(field.flood_step(pow2(k) as int), s, k),
{
    let m = pow2(k) as int;
    lemma_pow2_pos(k);
    lemma_pow2_unfold(k + 1);
    let next = field.flood_step(m);
    assert forall|i: int| 0 <= i < next.cells.len() implies (#[trigger] next.cells[i] matches Some(t)
        ==> in_grid(next.width, next.height, t.0 as int, t.1 as int)) by {
        lemma_best_knows_only(field, s, i % (field.width as int), i / (field.width as int), m, 9);
    }
    assert forall|x: int, y: int| #[trigger] next.at(x, y) is None || next.at(x, y) == Some(s) by {
        if in_grid(field.width, field.height, x, y) {
            lemma_flood_step_at(field, m, x, y);
            lemma_best_knows_only(field, s, x, y, m, 9);
        }
    }
    assert forall|x: int, y: int|
        in_grid(next.width, next.height, x, y) && (x - s.0) % m == 0 && (y - s.1) % m
            == 0 implies #[trigger] next.at(x, y) == Some(s) by {
        lemma_flood_step_at(field, m, x, y);
        let a = toward(x - s.0, m);
        let b = toward(y - s.1, m);
        lemma_toward(x - s.0, m);
        lemma_toward(y - s.1, m);
        let i = (b + 1) * 3 + (a + 1);
        assert(step_x(i) == a && step_y(i) == b);
        let cx = x + a * m;
        let cy = y + b * m;
        assert(a * m == if a == 0 {
            0
        } else if a == 1 {
            m
        } else {
            -m
        }) by (nonlinear_arith)
            requires
                -1 <= a <= 1,
        ;
        assert(b * m == if b == 0 {
            0
        } else if b == 1 {
            m
        } else {
            -m
        }) by (nonlinear_arith)
            requires
                -1 <= b <= 1,
        ;
        assert(in_grid(field.width, field.height, cx, cy));
        assert((cx - s.0) % (pow2(k + 1) as int) == 0);
        assert((cy - s.1) % (pow2(k + 1) as int) == 0);
        assert(field.at(cx, cy) == Some(s));
        lemma_best_finds(field, s, x, y, m, 9, i);
    }
}

/// Once the seed stands at the multiples of `2^(k+1)`, the flood passes at
/// jump distances `2^k` down to `1` carry it to every cell.
proof fn lemma_flood_from_reaches(field: FieldView, s: (u32, u32), k: nat)
    requires
        reached(field, s, k + 1),
    ensures
        reached(field.flood_from(k), s, 0),
        field.flood_from(k).width == field.width,
        field.flood_from(k).height == field.height,
    decreases k,
{
    lemma_flood_step_reaches(field, s, k);
    if k > 0 {
        lemma_flood_from_reaches(field.flood_step(pow2(k) as int), s, (k - 1) as nat);
    }
}

/// An offset shorter than `m` that is a multiple of `m` is zero.
proof fn lemma_short_multiple(d: int, m: int)
    requires
        -m < d < m,
        d % m == 0,
    ensures
        d == 0,
{
    if d > 0 {
        lemma_small_mod(d as nat, m as nat);
    } else if d < 0 {
        lemma_mod_add_multiples_vanish(d, m);
        lemma_small_mod((d + m) as nat, m as nat);
    }
}

/// The field holds one seed, at `(x0, y0)`, and nothing else.
pub open spec fn single_seed(field: FieldView, x0: int, y0: int) -> bool {
    &&& field.wf()
    &&& in_grid(field.width, field.height, x0, y0)
    &&& forall|x: int, y: int|
        in_grid(field.width, field.height, x, y) ==> #[trigger] field.at(x, y) == if x == x0 && y
            == y0 {
            Some((x0 as u32, y0 as u32))
        } else {
            None
        }
}

/// With a single seed, the full sequence of flood passes leaves the seed's
/// coordinates in every cell of the grid.
pub proof fn lemma_single_seed_floods_grid(field: FieldView, x0: int, y0: int)
    requires
        single_seed(field, x0, y0),
    ensures
        field.flooded().wf(),
        field.flooded().width == field.width,
        field.flooded().height == field.height,
        forall|x: int, y: int|
            in_grid(field.width, field.height, x, y) ==> #[trigger] field.flooded().at(x, y) == Some(
                (x0 as u32, y0 as u32),
            ),
{
    let s = (x0 as u32, y0 as u32);
    let k = field.first_exponent();
    let longer = if field.width >= field.height {
        field.width
    } else {
        field.height
    };
    lemma_ceil_log2(longer);
    lemma_pow2_unfold(k + 1);
    lemma_pow2_pos(k);
    let m = pow2(k + 1) as int;
    assert forall|x: int, y: int| #[trigger] field.at(x, y) is None || field.at(x, y) == Some(s) by {
    }
    assert forall|x: int, y: int|
        in_grid(field.width, field.height, x, y) && (x - s.0) % m == 0 && (y - s.1) % m
            == 0 implies #[trigger] field.at(x, y) == Some(s) by {
        lemma_short_multiple(x - s.0, m);
        lemma_short_multiple(y - s.1, m);
    }
    lemma_flood_from_reaches(field, s, k);
    lemma2_to64();
    let done = field.flooded();
    assert forall|x: int, y: int| in_grid(field.width, field.height, x, y) implies #[trigger] done.at(
        x,
        y,
    ) == Some(s) by {
        assert((x - s.0) % 1 == 0);
        assert((y - s.1) % 1 == 0);
    }
}

/// For a grid with a single seed at `(x0, y0)`, the distance field holds in
/// every cell `(x, y)` the exact squared Euclidean distance
/// `(x - x0)^2 + (y - y0)^2`; in particular it holds zero at the seed.
pub proof fn lemma_single_seed_distance_is_exact(
    width: nat,
    height: nat,
    occupied: Seq<bool>,
    x0: int,
    y0: int,
)
    requires
        grid_fault(width, height, occupied.len()) is None,
        in_grid(width, height, x0, y0),
        forall|i: int| 0 <= i < occupied.len() ==> (occupied[i] <==> i == cell_index(width, x0, y0)),
    ensures
        finalized(seeded(width, height, occupied).flooded()).len() == width * height,
        forall|x: int, y: int|
            in_grid(width, height, x, y) ==> #[trigger] finalized(
                seeded(width, height, occupied).flooded(),
            )[cell_index(width, x, y)] == Some(((x - x0) * (x - x0) + (y - y0) * (y - y0)) as u64),
        finalized(seeded(width, height, occupied).flooded())[cell_index(width, x0, y0)] == Some(0u64),
{
    let field = seeded(width, height, occupied);
    lemma_cell_index(width, height, x0, y0);
    assert forall|i: int| 0 <= i < field.cells.len() implies (#[trigger] field.cells[i] matches Some(t)
        ==> in_grid(width, height, t.0 as int, t.1 as int)) by {
        lemma_index_cell(width, height, i);
    }
    assert forall|x: int, y: int| in_grid(width, height, x, y) implies #[trigger] field.at(x, y) == if x
        == x0 && y == y0 {
        Some((x0 as u32, y0 as u32))
    } else {
        None
    } by {
        lemma_cell_index(width, height, x, y);
        if occupied[cell_index(width, x, y)] {
            assert(x == x0 && y == y0);
        }
    }
    lemma_single_seed_floods_grid(field, x0, y0);
    let done = field.flooded();
    let out = finalized(done);
    assert forall|x: int, y: int| in_grid(width, height, x, y) implies #[trigger] out[cell_index(
        width,
        x,
        y,
    )] == Some(((x - x0) * (x - x0) + (y - y0) * (y - y0)) as u64) by {
        lemma_cell_index(width, height, x, y);
        assert(done.at(x, y) == Some((x0 as u32, y0 as u32)));
    }
    assert(in_grid(width, height, x0, y0));
    assert(out[cell_index(width, x0, y0)] == Some(((x0 - x0) * (x0 - x0) + (y0 - y0) * (y0 - y0)) as u64));
}

/// The jump distances of the schedule halve from pass to pass and end at
/// one.
pub proof fn lemma_jumps_halve(first: nat, index: nat)
    requires
        index < first <= 31,
    ensures
        flood_pass_at(first, index).jump == 2 * flood_pass_at(
            first,
            index + 1,
        ).jump,
        flood_pass_at(first, first).jump == 1,
{
    lemma2_to64();
    lemma_pow2_unfold((first - index) as nat);
    vstd::arithmetic::power2::lemma_pow2_strictly_increases((first - index) as nat, 32);
}

/// A cell that knows the seed at its own position is at distance zero from
/// what it knows after any number of candidates past itself.
proof fn lemma_best_keeps_own_seed(field: FieldView, x: int, y: int, jump: int, n: nat)
    requires
        field.wf(),
        in_grid(field.width, field.height, x, y),
        field.at(x, y) == Some((x as u32, y as u32)),
        5 <= n,
    ensures
        field.best_of(x, y, jump, n) == Some((x as u32, y as u32)),
    decreases n,
{
    let own = (x as u32, y as u32);
    let i = (n - 1) as int;
    let incumbent = field.best_of(x, y, jump, (n - 1) as nat);
    let newcomer = field.at(x + step_x(i) * jump, y + step_y(i) * jump);
    lemma_own_distance(x, y);
    if n == 5 {
        assert(step_x(4) == 0 && step_y(4) == 0);
        assert(newcomer == Some(own));
        if let Some(b) = incumbent {
            lemma_zero_distance(x, y, b);
        }
    } else {
        lemma_best_keeps_own_seed(field, x, y, jump, (n - 1) as nat);
        if let Some(c) = newcomer {
            lemma_zero_distance(x, y, c);
        }
    }
}

/// A cell is at distance zero from itself.
proof fn lemma_own_distance(x: int, y: int)
    requires
        0 <= x <= MAX_SIDE,
        0 <= y <= MAX_SIDE,
    ensures
        distance_squared(x, y, (x as u32, y as u32)) == 0,
{
    let dx = x - (x as u32);
    let dy = y - (y as u32);
    assert(dx * dx + dy * dy == 0) by (nonlinear_arith)
        requires
            dx == 0,
            dy == 0,
    ;
}

/// No squared distance is negative, and only the cell's own position is at
/// distance zero.
proof fn lemma_zero_distance(x: int, y: int, s: (u32, u32))
    ensures
        distance_squared(x, y, s) >= 0,
        distance_squared(x, y, s) == 0 ==> x == s.0 && y == s.1,
{
    let dx = x - s.0;
    let dy = y - s.1;
    assert(dx * dx >= 0 && (dx * dx == 0 ==> dx == 0)) by (nonlinear_arith);
    assert(dy * dy >= 0 && (dy * dy == 0 ==> dy == 0)) by (nonlinear_arith);
}

/// A cell that is its own nearest seed stays so through every flood pass.
proof fn lemma_flood_from_keeps_own_seed(field: FieldView, x: int, y: int, k: nat)
    requires
        field.wf(),
        in_grid(field.width, field.height, x, y),
        field.at(x, y) == Some((x as u32, y as u32)),
    ensures
        field.flood_from(k).wf(),
        field.flood_from(k).at(x, y) == Some((x as u32, y as u32)),
        field.flood_from(k).width == field.width,
        field.flood_from(k).height == field.height,
    decreases k,
{
    let jump = pow2(k) as int;
    let next = field.flood_step(jump);
    lemma_flood_step_at(field, jump, x, y);
    lemma_best_keeps_own_seed(field, x, y, jump, 9);
    lemma_flood_step_wf(field, jump);
    if k > 0 {
        lemma_flood_from_keeps_own_seed(next, x, y, (k - 1) as nat);
    }
}

/// Whatever the best of the first `n` candidates knows is a cell of the grid.
proof fn lemma_best_in_grid(field: FieldView, x: int, y: int, jump: int, n: nat)
    requires
        field.wf(),
    ensures
        field.best_of(x, y, jump, n) matches Some(s) ==> in_grid(
            field.width,
            field.height,
            s.0 as int,
            s.1 as int,
        ),
    decreases n,
{
    if n > 0 {
        lemma_best_in_grid(field, x, y, jump, (n - 1) as nat);
        let i = (n - 1) as int;
        let cx = x + step_x(i) * jump;
        let cy = y + step_y(i) * jump;
        if in_grid(field.width, field.height, cx, cy) {
            lemma_cell_index(field.width, field.height, cx, cy);
        }
    }
}

/// A flood pass yields a well-formed field.
pub proof fn lemma_flood_step_wf(field: FieldView, jump: int)
    requires
        field.wf(),
    ensures
        field.flood_step(jump).wf(),
{
    let next = field.flood_step(jump);
    assert forall|i: int| 0 <= i < next.cells.len() implies (#[trigger] next.cells[i] matches Some(t)
        ==> in_grid(next.width, next.height, t.0 as int, t.1 as int)) by {
        lemma_best_in_grid(field, i % (field.width as int), i / (field.width as int), jump, 9);
    }
}

/// Whatever the seeds, the distance field holds zero at every occupied cell.
pub proof fn lemma_seed_distance_is_zero(width: nat, height: nat, occupied: Seq<bool>, x: int, y: int)
    requires
        grid_fault(width, height, occupied.len()) is None,
        in_grid(width, height, x, y),
        occupied[cell_index(width, x, y)],
    ensures
        finalized(seeded(width, height, occupied).flooded())[cell_index(width, x, y)] == Some(0u64),
{
    let field = seeded(width, height, occupied);
    lemma_cell_index(width, height, x, y);
    assert forall|i: int| 0 <= i < field.cells.len() implies (#[trigger] field.cells[i] matches Some(t)
        ==> in_grid(width, height, t.0 as int, t.1 as int)) by {
        lemma_index_cell(width, height, i);
    }
    lemma_flood_from_keeps_own_seed(field, x, y, field.first_exponent());
    assert(field.flooded().at(x, y) == Some((x as u32, y as u32)));
    lemma_own_distance(x, y);
}

/// Among candidates that know nothing, the best knows nothing.
proof fn lemma_best_of_nothing(field: FieldView, x: int, y: int, jump: int, n: nat)
    requires
        field.cells.len() == field.width * field.height,
        forall|i: int| 0 <= i < field.cells.len() ==> field.cells[i] is None,
    ensures
        field.best_of(x, y, jump, n) is None,
    decreases n,
{
    if n > 0 {
        lemma_best_of_nothing(field, x, y, jump, (n - 1) as nat);
        let i = (n - 1) as int;
        let cx = x + step_x(i) * jump;
        let cy = y + step_y(i) * jump;
        if in_grid(field.width, field.height, cx, cy) {
            lemma_cell_index(field.width, field.height, cx, cy);
        }
    }
}

/// Flood passes over a field that knows nothing leave it knowing nothing.
proof fn lemma_flood_from_nothing(field: FieldView, k: nat)
    requires
        field.cells.len() == field.width * field.height,
        forall|i: int| 0 <= i < field.cells.len() ==> field.cells[i] is None,
    ensures
        field.flood_from(k).cells.len() == field.cells.len(),
        field.flood_from(k).width == field.width,
        forall|i: int| 0 <= i < field.cells.len() ==> field.flood_from(k).cells[i] is None,
    decreases k,
{
    let jump = pow2(k) as int;
    let next = field.flood_step(jump);
    assert forall|i: int| 0 <= i < next.cells.len() implies next.cells[i] is None by {
        lemma_best_of_nothing(field, i % (field.width as int), i / (field.width as int), jump, 9);
    }
    if k > 0 {
        lemma_flood_from_nothing(next, (k - 1) as nat);
    }
}

/// A grid without seeds has a distance field all the same: every cell holds
/// `None`, the mark of "no data".
pub proof fn lemma_no_seed_no_data(width: nat, height: nat, occupied: Seq<bool>)
    requires
        grid_fault(width, height, occupied.len()) is None,
        forall|i: int| 0 <= i < occupied.len() ==> !occupied[i],
    ensures
        finalized(seeded(width, height, occupied).flooded()).len() == width * height,
        forall|i: int|
            0 <= i < width * height ==> finalized(seeded(width, height, occupied).flooded())[i] is None,
{
    let field = seeded(width, height, occupied);
    lemma_flood_from_nothing(field, field.first_exponent());
}

/// Every seed that the field names is an occupied cell of the grid.
pub open spec fn names_only_seeds(field: FieldView, occupied: Seq<bool>) -> bool {
    forall|i: int|
        0 <= i < field.cells.len() ==> (#[trigger] field.cells[i] matches Some(s) ==> in_grid(
            field.width,
            field.height,
            s.0 as int,
            s.1 as int,
        ) && occupied[cell_index(field.width, s.0 as int, s.1 as int)])
}

/// Whatever the best of the first `n` candidates knows is a seed.
proof fn lemma_best_names_seed(field: FieldView, occupied: Seq<bool>, x: int, y: int, jump: int, n: nat)
    requires
        field.cells.len() == field.width * field.height,
        names_only_seeds(field, occupied),
    ensures
        field.best_of(x, y, jump, n) matches Some(s) ==> in_grid(
            field.width,
            field.height,
            s.0 as int,
            s.1 as int,
        ) && occupied[cell_index(field.width, s.0 as int, s.1 as int)],
    decreases n,
{
    if n > 0 {
        lemma_best_names_seed(field, occupied, x, y, jump, (n - 1) as nat);
        let i = (n - 1) as int;
        let cx = x + step_x(i) * jump;
        let cy = y + step_y(i) * jump;
        if in_grid(field.width, field.height, cx, cy) {
            lemma_cell_index(field.width, field.height, cx, cy);
        }
    }
}

/// Flood passes invent no seed.
proof fn lemma_flood_from_names_seeds(field: FieldView, occupied: Seq<bool>, k: nat)
    requires
        field.cells.len() == field.width * field.height,
        names_only_seeds(field, occupied),
    ensures
        names_only_seeds(field.flood_from(k), occupied),
        field.flood_from(k).cells.len() == field.cells.len(),
        field.flood_from(k).width == field.width,
        field.flood_from(k).height == field.height,
    decreases k,
{
    let jump = pow2(k) as int;
    let next = field.flood_step(jump);
    assert forall|i: int| 0 <= i < next.cells.len() implies (#[trigger] next.cells[i] matches Some(s)
        ==> in_grid(next.width, next.height, s.0 as int, s.1 as int) && occupied[cell_index(
        next.width,
        s.0 as int,
        s.1 as int,
    )]) by {
        lemma_best_names_seed(
            field,
            occupied,
            i % (field.width as int),
            i / (field.width as int),
            jump,
            9,
        );
    }
    if k > 0 {
        lemma_flood_from_names_seeds(next, occupied, (k - 1) as nat);
    }
}

/// The distance that the field gives for a cell is the distance to an
/// occupied cell: it is never less than the distance to the nearest seed.
pub proof fn lemma_distance_is_to_a_seed(width: nat, height: nat, occupied: Seq<bool>, x: int, y: int)
    requires
        grid_fault(width, height, occupied.len()) is None,
        in_grid(width, height, x, y),
        finalized(seeded(width, height, occupied).flooded())[cell_index(width, x, y)] is Some,
    ensures
        exists|sx: int, sy: int|
            in_grid(width, height, sx, sy) && #[trigger] occupied[cell_index(width, sx, sy)]
                && finalized(seeded(width, height, occupied).flooded())[cell_index(width, x, y)]
                == Some(((x - sx) * (x - sx) + (y - sy) * (y - sy)) as u64),
{
    let field = seeded(width, height, occupied);
    assert forall|i: int| 0 <= i < field.cells.len() implies (#[trigger] field.cells[i] matches Some(s)
        ==> in_grid(width, height, s.0 as int, s.1 as int) && occupied[cell_index(
        width,
        s.0 as int,
        s.1 as int,
    )]) by {
        lemma_index_cell(width, height, i);
    }
    lemma_flood_from_names_seeds(field, occupied, field.first_exponent());
    let done = field.flooded();
    lemma_cell_index(width, height, x, y);
    let i = cell_index(width, x, y);
    let s = done.cells[i]->0;
    assert(done.cells[i] == Some(s));
    assert(occupied[cell_index(width, s.0 as int, s.1 as int)]);
    assert(distance_squared(x, y, s) == (x - s.0) * (x - s.0) + (y - s.1) * (y - s.1));
}

/// Every cell whose offsets from `(x0, y0)` are multiples of `2^k` knows a
/// seed.
pub open spec fn informed(field: FieldView, x0: int, y0: int, k: nat) -> bool {
    &&& field.wf()
    &&& in_grid(field.width, field.height, x0, y0)
    &&& forall|x: int, y: int|
        in_grid(field.width, field.height, x, y) && (x - x0) % (pow2(k) as int) == 0 && (y - y0) % (
        pow2(k) as int) == 0 ==> (#[trigger] field.at(x, y)) is Some
}

/// The best of the candidates knows a seed as soon as one candidate does.
proof fn lemma_best_is_informed(field: FieldView, x: int, y: int, jump: int, n: nat, i: int)
    requires
        0 <= i < n,
        field.at(x + step_x(i) * jump, y + step_y(i) * jump) is Some,
    ensures
        field.best_of(x, y, jump, n) is Some,
    decreases n,
{
    if i < n - 1 {
        lemma_best_is_informed(field, x, y, jump, (n - 1) as nat, i);
    }
}

/// A flood pass at jump distance `2^k` informs the cells at multiples of
/// `2^k` from the cells at multiples of `2^(k+1)`.
proof fn lemma_flood_step_informs(field: FieldView, x0: int, y0: int, k: nat)
    requires
        informed(field, x0, y0, k + 1),
    ensures
        informed(field.flood_step(pow2(k) as int), x0, y0, k),
{
    let m = pow2(k) as int;
    lemma_pow2_pos(k);
    lemma_pow2_unfold(k + 1);
    let next = field.flood_step(m);
    lemma_flood_step_wf(field, m);
    assert forall|x: int, y: int|
        in_grid(next.width, next.height, x, y) && (x - x0) % m == 0 && (y - y0) % m
            == 0 implies (#[trigger] next.at(x, y)) is Some by {
        lemma_flood_step_at(field, m, x, y);
        let a = toward(x - x0, m);
        let b = toward(y - y0, m);
        lemma_toward(x - x0, m);
        lemma_toward(y - y0, m);
        let i = (b + 1) * 3 + (a + 1);
        assert(step_x(i) == a && step_y(i) == b);
        let cx = x + a * m;
        let cy = y + b * m;
        assert(a * m == if a == 0 {
            0
        } else if a == 1 {
            m
        } else {
            -m
        }) by (nonlinear_arith)
            requires
                -1 <= a <= 1,
        ;
        assert(b * m == if b == 0 {
            0
        } else if b == 1 {
            m
        } else {
            -m
        }) by (nonlinear_arith)
            requires
                -1 <= b <= 1,
        ;
        assert(in_grid(field.width, field.height, cx, cy));
        assert((cx - x0) % (pow2(k + 1) as int) == 0);
        assert((cy - y0) % (pow2(k + 1) as int) == 0);
        assert(field.at(cx, cy) is Some);
        lemma_best_is_informed(field, x, y, m, 9, i);
    }
}

/// Once the cells at multiples of `2^(k+1)` from a seed know a seed, the
/// flood passes at jump distances `2^k` down to `1` inform every cell.
proof fn lemma_flood_from_informs(field: FieldView, x0: int, y0: int, k: nat)
    requires
        informed(field, x0, y0, k + 1),
    ensures
        informed(field.flood_from(k), x0, y0, 0),
        field.flood_from(k).width == field.width,
        field.flood_from(k).height == field.height,
    decreases k,
{
    lemma_flood_step_informs(field, x0, y0, k);
    if k > 0 {
        lemma_flood_from_informs(field.flood_step(pow2(k) as int), x0, y0, (k - 1) as nat);
    }
}

/// Where the grid holds any seed at all, the distance field has a distance
/// in every cell: no cell is left without data.
pub proof fn lemma_any_seed_informs_every_cell(
    width: nat,
    height: nat,
    occupied: Seq<bool>,
    x0: int,
    y0: int,
)
    requires
        grid_fault(width, height, occupied.len()) is None,
        in_grid(width, height, x0, y0),
        occupied[cell_index(width, x0, y0)],
    ensures
        finalized(seeded(width, height, occupied).flooded()).len() == width * height,
        forall|i: int|
            0 <= i < width * height ==> finalized(seeded(width, height, occupied).flooded())[i] is Some,
{
    let field = seeded(width, height, occupied);
    lemma_cell_index(width, height, x0, y0);
    assert forall|i: int| 0 <= i < field.cells.len() implies (#[trigger] field.cells[i] matches Some(t)
        ==> in_grid(width, height, t.0 as int, t.1 as int)) by {
        lemma_index_cell(width, height, i);
    }
    let k = field.first_exponent();
    let longer = if width >= height {
        width
    } else {
        height
    };
    lemma_ceil_log2(longer);
    lemma_pow2_unfold(k + 1);
    lemma_pow2_pos(k);
    let m = pow2(k + 1) as int;
    assert forall|x: int, y: int|
        in_grid(width, height, x, y) && (x - x0) % m == 0 && (y - y0) % m == 0 implies (
    #[trigger] field.at(x, y)) is Some by {
        lemma_short_multiple(x - x0, m);
        lemma_short_multiple(y - y0, m);
    }
    lemma_flood_from_informs(field, x0, y0, k);
    lemma2_to64();
    let done = field.flooded();
    assert forall|i: int| 0 <= i < width * height implies finalized(done)[i] is Some by {
        lemma_index_cell(width, height, i);
        let x = i % (width as int);
        let y = i / (width as int);
        assert((x - x0) % 1 == 0);
        assert((y - y0) % 1 == 0);
        assert(done.at(x, y) is Some);
    }
}

} // verus!
