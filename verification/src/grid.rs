use vstd::prelude::*;
use crate::config::ConfigError;

verus! {

/// Largest side of a grid: sizes are handed to the graphics interface as
/// signed 32-bit integers.
pub const MAX_SIDE: u32 = 0x7fff_ffff;

/// Position of cell `(x, y)` in the row-major buffer of a grid that is
/// `width` cells wide.
pub open spec fn cell_index(width: nat, x: int, y: int) -> int {
    y * width + x
}

/// Whether `(x, y)` is a cell of a `width` by `height` grid.
pub open spec fn in_grid(width: nat, height: nat, x: int, y: int) -> bool {
    0 <= x < width && 0 <= y < height
}

/// The index of a cell of the grid lies within the grid's buffer, and the
/// cell can be recovered from it.
pub proof fn lemma_cell_index(width: nat, height: nat, x: int, y: int)
    requires
        in_grid(width, height, x, y),
    ensures
        0 <= cell_index(width, x, y) < width * height,
        cell_index(width, x, y) % (width as int) == x,
        cell_index(width, x, y) / (width as int) == y,
{
    let w = width as int;
    let h = height as int;
    assert(y * w + x < h * w) by (nonlinear_arith)
        requires
            0 <= x < w,
            0 <= y < h,
    ;
    assert(0 <= y * w) by (nonlinear_arith)
        requires
            0 <= y,
            0 <= w,
    ;
    assert(h * w == w * h) by (nonlinear_arith);
    vstd::arithmetic::div_mod::lemma_fundamental_div_mod_converse(y * w + x, w, y, x);
}

/// Every index of the buffer is the index of one cell of the grid.
pub proof fn lemma_index_cell(width: nat, height: nat, i: int)
    requires
        0 <= i < width * height,
    ensures
        in_grid(width, height, i % (width as int), i / (width as int)),
        cell_index(width, i % (width as int), i / (width as int)) == i,
{
    let w = width as int;
    let h = height as int;
    assert(w > 0) by (nonlinear_arith)
        requires
            0 <= i < w * h,
            w >= 0,
            h >= 0,
    ;
    vstd::arithmetic::div_mod::lemma_fundamental_div_mod(i, w);
    vstd::arithmetic::div_mod::lemma_mod_bound(i, w);
    let q = i / w;
    assert(q >= 0) by {
        vstd::arithmetic::div_mod::lemma_div_pos_is_pos(i, w);
    }
    assert(q < h) by (nonlinear_arith)
        requires
            i == w * q + i % w,
            0 <= i % w,
            i < w * h,
            w > 0,
    ;
    assert(w * q == q * w) by (nonlinear_arith);
}

/// The number of cells of a grid, where it fits the machine.
pub fn cell_count(width: u32, height: u32) -> (n: Option<usize>)
    ensures
        match n {
            Some(n) => n == width * height,
            None => width * height > usize::MAX,
        },
{
    assert(0 <= (width as int) * (height as int) <= 0xffff_fffe_0000_0001) by (nonlinear_arith)
        requires
            0 <= width <= 0xffff_ffff,
            0 <= height <= 0xffff_ffff,
    ;
    let n: u64 = (width as u64) * (height as u64);
    if n > usize::MAX as u64 {
        None
    } else {
        Some(n as usize)
    }
}

/// The buffer position of cell `(x, y)`.
pub fn index_of(width: u32, height: u32, x: u32, y: u32) -> (i: usize)
    requires
        x < width,
        y < height,
        width * height <= usize::MAX,
    ensures
        i == cell_index(width as nat, x as int, y as int),
        i < width * height,
{
    proof {
        lemma_cell_index(width as nat, height as nat, x as int, y as int);
    }
    assert((y as int) * (width as int) <= (width as int) * (height as int)) by (nonlinear_arith)
        requires
            0 <= y < height,
            0 <= width,
    ;
    (y as usize) * (width as usize) + (x as usize)
}

/// The fault, if any, of the sides of a grid.
pub open spec fn sides_fault(width: nat, height: nat) -> Option<ConfigError> {
    if width == 0 || height == 0 {
        Some(ConfigError::EmptyGrid)
    } else if width > MAX_SIDE || height > MAX_SIDE {
        Some(ConfigError::TooLarge)
    } else {
        None
    }
}

/// The fault, if any, of a grid of `width` by `height` cells that comes
/// with a buffer of `len` values.
pub open spec fn grid_fault(width: nat, height: nat, len: nat) -> Option<ConfigError> {
    if width == 0 || height == 0 {
        Some(ConfigError::EmptyGrid)
    } else if width > MAX_SIDE || height > MAX_SIDE {
        Some(ConfigError::TooLarge)
    } else if len != width * height {
        Some(ConfigError::SizeMismatch)
    } else {
        None
    }
}

/// Checks a grid's sides against the length of its buffer.
pub fn check_grid(width: u32, height: u32, len: usize) -> (r: Result<(), ConfigError>)
    ensures
        match r {
            Ok(_) => grid_fault(width as nat, height as nat, len as nat) is None,
            Err(e) => grid_fault(width as nat, height as nat, len as nat) == Some(e),
        },
{
    if width == 0 || height == 0 {
        return Err(ConfigError::EmptyGrid);
    }
    if width > MAX_SIDE || height > MAX_SIDE {
        return Err(ConfigError::TooLarge);
    }
    match cell_count(width, height) {
        Some(n) => if n == len {
            Ok(())
        } else {
            Err(ConfigError::SizeMismatch)
        },
        None => Err(ConfigError::SizeMismatch),
    }
}

} // verus!
