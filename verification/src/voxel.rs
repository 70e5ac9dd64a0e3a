use vstd::prelude::*;
use crate::config::ConfigError;
use crate::grid::{cell_index, lemma_cell_index, MAX_SIDE};

verus! {

/// One of the three axes along which the scene is projected for
/// voxelization.
#[derive(Debug, Clone, Copy, PartialEq, Eq, Structural)]
pub enum Axis {
    X,
    Y,
    Z,
}

/// A direction with whole-number components.
pub type Direction = (i8, i8, i8);

/// The scalar product of two directions.
pub open spec fn dot(a: (int, int, int), b: (int, int, int)) -> int {
    a.0 * b.0 + a.1 * b.1 + a.2 * b.2
}

impl Axis {
    /// The direction in which the projection along this axis looks.
    pub open spec fn view_direction_spec(self) -> (int, int, int) {
        match self {
            Axis::X => (1, 0, 0),
            Axis::Y => (0, 1, 0),
            Axis::Z => (0, 0, -1),
        }
    }

    /// The direction that is up in the projection along this axis.
    pub open spec fn up_spec(self) -> (int, int, int) {
        match self {
            Axis::X => (0, 1, 0),
            Axis::Y => (0, 0, 1),
            Axis::Z => (0, 1, 0),
        }
    }

    /// The direction in which the projection along this axis looks.
    pub fn view_direction(self) -> (d: Direction)
        ensures
            (d.0 as int, d.1 as int, d.2 as int) == self.view_direction_spec(),
    {
        match self {
            Axis::X => (1, 0, 0),
            Axis::Y => (0, 1, 0),
            Axis::Z => (0, 0, -1),
        }
    }

    /// The direction that is up in the projection along this axis.
    pub fn up(self) -> (d: Direction)
        ensures
            (d.0 as int, d.1 as int, d.2 as int) == self.up_spec(),
    {
        match self {
            Axis::X => (0, 1, 0),
            Axis::Y => (0, 0, 1),
            Axis::Z => (0, 1, 0),
        }
    }

    /// The three axes, in the order in which an object is rasterized.
    pub fn all() -> (axes: [Axis; 3])
        ensures
            axes[0] == Axis::X,
            axes[1] == Axis::Y,
            axes[2] == Axis::Z,
    {
        [Axis::X, Axis::Y, Axis::Z]
    }
}

/// The three projections look along mutually orthogonal unit directions,
/// and in each of them up is a unit direction orthogonal to the view: a
/// surface that is edge-on to one projection faces another.
pub proof fn lemma_axes_are_orthogonal(a: Axis, b: Axis)
    ensures
        dot(a.view_direction_spec(), a.view_direction_spec()) == 1,
        dot(a.up_spec(), a.up_spec()) == 1,
        dot(a.view_direction_spec(), a.up_spec()) == 0,
        a != b ==> dot(a.view_direction_spec(), b.view_direction_spec()) == 0,
{
}

/// The fault, if any, of a voxel resolution.
pub open spec fn resolution_fault(x: nat, y: nat, z: nat) -> Option<ConfigError> {
    if x == 0 || y == 0 || z == 0 {
        Some(ConfigError::EmptyVoxelGrid)
    } else if x > MAX_SIDE || y > MAX_SIDE || z > MAX_SIDE || x * y * z > MAX_SIDE {
        Some(ConfigError::TooLarge)
    } else {
        None
    }
}

/// The number of voxels of a grid of the given resolution, as the instance
/// count of a draw that shows one cube per voxel.
pub fn voxel_count(x: u32, y: u32, z: u32) -> (r: Result<u32, ConfigError>)
    ensures
        match r {
            Ok(n) => resolution_fault(x as nat, y as nat, z as nat) is None && n == x * y * z,
            Err(e) => resolution_fault(x as nat, y as nat, z as nat) == Some(e),
        },
{
    if x == 0 || y == 0 || z == 0 {
        return Err(ConfigError::EmptyVoxelGrid);
    }
    if x > MAX_SIDE || y > MAX_SIDE || z > MAX_SIDE {
        return Err(ConfigError::TooLarge);
    }
    assert((x as int) * (y as int) <= 0x3fff_ffff_0000_0001) by (nonlinear_arith)
        requires
            0 <= x <= 0x7fff_ffff,
            0 <= y <= 0x7fff_ffff,
    ;
    let xy: u64 = (x as u64) * (y as u64);
    if xy > MAX_SIDE as u64 {
        assert((x * y) * z > MAX_SIDE) by (nonlinear_arith)
            requires
                x * y > MAX_SIDE,
                z >= 1,
        ;
        return Err(ConfigError::TooLarge);
    }
    assert(xy * (z as int) <= 0x3fff_ffff_0000_0001) by (nonlinear_arith)
        requires
            0 <= xy <= 0x7fff_ffff,
            0 <= z <= 0x7fff_ffff,
    ;
    let n: u64 = xy * (z as u64);
    if n > MAX_SIDE as u64 {
        return Err(ConfigError::TooLarge);
    }
    Ok(n as u32)
}

/// A voxel position.
pub type Cell = (u32, u32, u32);

/// Whether `(x, y, z)` is a voxel of a grid of the given resolution.
pub open spec fn in_volume(sx: nat, sy: nat, sz: nat, x: int, y: int, z: int) -> bool {
    0 <= x < sx && 0 <= y < sy && 0 <= z < sz
}

/// Position of voxel `(x, y, z)` in the buffer of a grid: rows of `sx`
/// voxels, slices of `sy` rows.
pub open spec fn voxel_index(sx: nat, sy: nat, x: int, y: int, z: int) -> int {
    cell_index(sx, x, cell_index(sy, y, z))
}

/// The index of a voxel lies within the buffer, and no two voxels share one.
pub proof fn lemma_voxel_index(sx: nat, sy: nat, sz: nat, x: int, y: int, z: int)
    requires
        in_volume(sx, sy, sz, x, y, z),
    ensures
        0 <= voxel_index(sx, sy, x, y, z) < sx * sy * sz,
        voxel_index(sx, sy, x, y, z) % (sx as int) == x,
        (voxel_index(sx, sy, x, y, z) / (sx as int)) % (sy as int) == y,
        (voxel_index(sx, sy, x, y, z) / (sx as int)) / (sy as int) == z,
{
    lemma_cell_index(sy, sz, y, z);
    let row = cell_index(sy, y, z);
    lemma_cell_index(sx, sy * sz, x, row);
    assert(sx * (sy * sz) == sx * sy * sz) by (nonlinear_arith);
}

/// A voxel grid as a mathematical value.
pub struct VolumeView<T> {
    pub sx: nat,
    pub sy: nat,
    pub sz: nat,
    pub cells: Seq<T>,
}

impl<T> VolumeView<T> {
    /// The grid has one value per voxel and a resolution within range.
    pub open spec fn wf(self) -> bool {
        &&& resolution_fault(self.sx, self.sy, self.sz) is None
        &&& self.cells.len() == self.sx * self.sy * self.sz
    }

    /// The value of voxel `(x, y, z)`.
    pub open spec fn at(self, x: int, y: int, z: int) -> T
        recommends
            in_volume(self.sx, self.sy, self.sz, x, y, z),
    {
        self.cells[voxel_index(self.sx, self.sy, x, y, z)]
    }

    /// Whether `(x, y, z)` is a voxel of the grid.
    pub open spec fn contains(self, x: int, y: int, z: int) -> bool {
        in_volume(self.sx, self.sy, self.sz, x, y, z)
    }

    /// Whether both grids have the same resolution.
    pub open spec fn same_shape(self, other: VolumeView<T>) -> bool {
        self.sx == other.sx && self.sy == other.sy && self.sz == other.sz
    }
}

/// What the rasterizer reports of one object: the value to store and, for
/// each of the three projections, the voxels that its samples fall into.
pub struct VoxelObject<T> {
    /// The value written for the object: its albedo or its emission.
    pub value: T,
    /// The voxels covered in the projection along X.
    pub along_x: Vec<Cell>,
    /// The voxels covered in the projection along Y.
    pub along_y: Vec<Cell>,
    /// The voxels covered in the projection along Z.
    pub along_z: Vec<Cell>,
}

/// Whether one of the first `n` samples falls into the voxel.
pub open spec fn among_first(samples: Seq<Cell>, n: int, x: int, y: int, z: int) -> bool {
    exists|i: int|
        0 <= i < n && i < samples.len() && (#[trigger] samples[i]) == (x as u32, y as u32, z as u32)
}

impl<T> VoxelObject<T> {
    /// Whether the projection along `axis` covers the voxel.
    pub open spec fn covers_along(&self, axis: Axis, x: int, y: int, z: int) -> bool {
        match axis {
            Axis::X => among_first(self.along_x@, self.along_x@.len() as int, x, y, z),
            Axis::Y => among_first(self.along_y@, self.along_y@.len() as int, x, y, z),
            Axis::Z => among_first(self.along_z@, self.along_z@.len() as int, x, y, z),
        }
    }

    /// Whether any of the three projections covers the voxel.
    pub open spec fn covers(&self, x: int, y: int, z: int) -> bool {
        self.covers_along(Axis::X, x, y, z) || self.covers_along(Axis::Y, x, y, z)
            || self.covers_along(Axis::Z, x, y, z)
    }
}

/// The value of voxel `(x, y, z)` after the first `n` objects were written
/// in order: that of the last of them that covers the voxel, and the value
/// before where none does.
pub open spec fn value_after<T>(
    before: VolumeView<T>,
    objects: Seq<VoxelObject<T>>,
    n: nat,
    x: int,
    y: int,
    z: int,
) -> T
    decreases n,
{
    if n == 0 {
        before.at(x, y, z)
    } else if objects[n - 1].covers(x, y, z) {
        objects[n - 1].value
    } else {
        value_after(before, objects, (n - 1) as nat, x, y, z)
    }
}

/// A voxel grid: one value per voxel of a box of the given resolution. A
/// grid made by `new` is well formed, and every method keeps it so.
pub struct VoxelGrid<T> {
    sx: u32,
    sy: u32,
    sz: u32,
    cells: Vec<T>,
}

impl<T> View for VoxelGrid<T> {
    type V = VolumeView<T>;

    closed spec fn view(&self) -> VolumeView<T> {
        VolumeView { sx: self.sx as nat, sy: self.sy as nat, sz: self.sz as nat, cells: self.cells@ }
    }
}

impl<T: Copy> VoxelGrid<T> {
    /// A grid of the given resolution in which every voxel holds `fill`.
    pub fn new(x: u32, y: u32, z: u32, fill: T) -> (r: Result<VoxelGrid<T>, ConfigError>)
        ensures
            match r {
                Ok(g) => {
                    &&& resolution_fault(x as nat, y as nat, z as nat) is None
                    &&& g@.wf()
                    &&& g@.sx == x && g@.sy == y && g@.sz == z
                    &&& forall|i: int| 0 <= i < g@.cells.len() ==> g@.cells[i] == fill
                },
                Err(e) => resolution_fault(x as nat, y as nat, z as nat) == Some(e),
            },
    {
        let n: u32 = match voxel_count(x, y, z) {
            Ok(n) => n,
            Err(e) => {
                return Err(e);
            },
        };
        let mut cells: Vec<T> = Vec::new();
        let mut i: u32 = 0;
        while i < n
            invariant
                i <= n,
                cells.len() == i,
                forall|j: int| 0 <= j < i ==> cells[j] == fill,
            decreases n - i,
        {
            cells.push(fill);
            i = i + 1;
        }
        Ok(VoxelGrid { sx: x, sy: y, sz: z, cells })
    }

    /// The resolution of the grid along X, Y and Z.
    pub fn resolution(&self) -> (r: (u32, u32, u32))
        ensures
            r.0 == self@.sx,
            r.1 == self@.sy,
            r.2 == self@.sz,
    {
        (self.sx, self.sy, self.sz)
    }

    /// The buffer position of a voxel of the grid.
    fn index(&self, x: u32, y: u32, z: u32) -> (i: usize)
        requires
            self@.wf(),
            self@.contains(x as int, y as int, z as int),
        ensures
            i == voxel_index(self@.sx, self@.sy, x as int, y as int, z as int),
            i < self@.cells.len(),
    {
        proof {
            lemma_voxel_index(self@.sx, self@.sy, self@.sz, x as int, y as int, z as int);
            lemma_cell_index(self@.sy, self@.sz, y as int, z as int);
            let (sx, sy, sz) = (self@.sx as int, self@.sy as int, self@.sz as int);
            assert(sy * sz <= sx * sy * sz) by (nonlinear_arith)
                requires
                    sx >= 1,
                    sy >= 1,
                    sz >= 1,
            ;
            assert(0 <= z * sy) by (nonlinear_arith)
                requires
                    z >= 0,
                    sy >= 0,
            ;
        }
        let row: usize = (z as usize) * (self.sy as usize) + (y as usize);
        assert(row * self.sx + x < self.sx * self.sy * self.sz);
        assert(row * self.sx <= row * self.sx + x);
        row * (self.sx as usize) + (x as usize)
    }

    /// The value of voxel `(x, y, z)`, or `None` outside the grid.
    pub fn get(&self, x: u32, y: u32, z: u32) -> (r: Option<T>)
        requires
            self@.wf(),
        ensures
            match r {
                Some(v) => self@.contains(x as int, y as int, z as int) && v
                    == self@.at(x as int, y as int, z as int),
                None => !self@.contains(x as int, y as int, z as int),
            },
    {
        if x < self.sx && y < self.sy && z < self.sz {
            let i = self.index(x, y, z);
            Some(self.cells[i])
        } else {
            None
        }
    }

    /// Clears the grid: every voxel holds `color` afterwards.
    pub fn clear(&mut self, color: T)
        requires
            old(self)@.wf(),
        ensures
            final(self)@.wf(),
            final(self)@.same_shape(old(self)@),
            forall|i: int| 0 <= i < final(self)@.cells.len() ==> final(self)@.cells[i] == color,
    {
        let n: usize = self.cells.len();
        let mut i: usize = 0;
        while i < n
            invariant
                i <= n,
                n == self.cells.len(),
                self.sx == old(self).sx,
                self.sy == old(self).sy,
                self.sz == old(self).sz,
                self.cells.len() == old(self).cells.len(),
                forall|j: int| 0 <= j < i ==> self.cells[j] == color,
            decreases n - i,
        {
            self.cells.set(i, color);
            i = i + 1;
        }
    }

    /// Stores `value` in the voxel `cell`. A position outside the grid is
    /// discarded, and the result says whether the value was stored.
    pub fn store(&mut self, cell: Cell, value: T) -> (stored: bool)
        requires
            old(self)@.wf(),
        ensures
            final(self)@.wf(),
            final(self)@.same_shape(old(self)@),
            stored == old(self)@.contains(cell.0 as int, cell.1 as int, cell.2 as int),
            final(self)@.cells == if stored {
                old(self)@.cells.update(
                    voxel_index(old(self)@.sx, old(self)@.sy, cell.0 as int, cell.1 as int, cell.2 as int),
                    value,
                )
            } else {
                old(self)@.cells
            },
    {
        if cell.0 < self.sx && cell.1 < self.sy && cell.2 < self.sz {
            let i = self.index(cell.0, cell.1, cell.2);
            self.cells.set(i, value);
            true
        } else {
            false
        }
    }

    /// Stores `value` in every voxel that one of `samples` falls into.
    pub fn store_all(&mut self, samples: &Vec<Cell>, value: T)
        requires
            old(self)@.wf(),
        ensures
            final(self)@.wf(),
            final(self)@.same_shape(old(self)@),
            forall|x: int, y: int, z: int|
                old(self)@.contains(x, y, z) ==> #[trigger] final(self)@.at(x, y, z) == if among_first(
                    samples@,
                    samples@.len() as int,
                    x,
                    y,
                    z,
                ) {
                    value
                } else {
                    old(self)@.at(x, y, z)
                },
    {
        let mut k: usize = 0;
        while k < samples.len()
            invariant
                k <= samples.len(),
                self@.wf(),
                self@.same_shape(old(self)@),
                forall|x: int, y: int, z: int|
                    old(self)@.contains(x, y, z) ==> #[trigger] self@.at(
                        x,
                        y,
                        z,
                    ) == if among_first(samples@, k as int, x, y, z) {
                        value
                    } else {
                        old(self)@.at(x, y, z)
                    },
            decreases samples.len() - k,
        {
            let ghost before = self@;
            let cell = samples[k];
            let stored = self.store(cell, value);
            proof {
                assert forall|x: int, y: int, z: int|
                    old(self)@.contains(x, y, z) implies #[trigger] self@.at(
                    x,
                    y,
                    z,
                ) == if among_first(samples@, k + 1, x, y, z) {
                    value
                } else {
                    old(self)@.at(x, y, z)
                } by {
                    let here = (x as u32, y as u32, z as u32);
                    lemma_voxel_index(before.sx, before.sy, before.sz, x, y, z);
                    if samples@[k as int] == here {
                        assert(among_first(samples@, k + 1, x, y, z));
                    } else {
                        if stored {
                            lemma_voxel_index(
                                before.sx,
                                before.sy,
                                before.sz,
                                cell.0 as int,
                                cell.1 as int,
                                cell.2 as int,
                            );
                        }
                        assert(self@.at(x, y, z) == before.at(x, y, z));
                        if among_first(samples@, k + 1, x, y, z) {
                            let i = choose|i: int|
                                0 <= i < k + 1 && i < samples@.len() && (#[trigger] samples@[i]) == here;
                            assert(among_first(samples@, k as int, x, y, z));
                        }
                        if among_first(samples@, k as int, x, y, z) {
                            let i = choose|i: int|
                                0 <= i < k && i < samples@.len() && (#[trigger] samples@[i]) == here;
                            assert(among_first(samples@, k + 1, x, y, z));
                        }
                    }
                }
            }
            k = k + 1;
        }
    }

    /// Writes the objects into the grid, in order: every voxel that any of
    /// the three projections of an object covers receives the object's
    /// value, and a voxel that no object covers keeps the value it had.
    pub fn voxelize(&mut self, objects: &Vec<VoxelObject<T>>)
        requires
            old(self)@.wf(),
        ensures
            final(self)@.wf(),
            final(self)@.same_shape(old(self)@),
            forall|x: int, y: int, z: int|
                old(self)@.contains(x, y, z) ==> #[trigger] final(self)@.at(x, y, z) == value_after(
                    old(self)@,
                    objects@,
                    objects@.len(),
                    x,
                    y,
                    z,
                ),
    {
        let mut n: usize = 0;
        while n < objects.len()
            invariant
                n <= objects.len(),
                self@.wf(),
                self@.same_shape(old(self)@),
                forall|x: int, y: int, z: int|
                    old(self)@.contains(x, y, z) ==> #[trigger] self@.at(
                        x,
                        y,
                        z,
                    ) == value_after(old(self)@, objects@, n as nat, x, y, z),
            decreases objects.len() - n,
        {
            let ghost before = self@;
            let object = &objects[n];
            self.store_all(&object.along_x, object.value);
            let ghost after_x = self@;
            self.store_all(&object.along_y, object.value);
            let ghost after_y = self@;
            self.store_all(&object.along_z, object.value);
            proof {
                assert forall|x: int, y: int, z: int|
                    old(self)@.contains(x, y, z) implies #[trigger] self@.at(
                    x,
                    y,
                    z,
                ) == value_after(old(self)@, objects@, (n + 1) as nat, x, y, z) by {
                    assert(before.at(x, y, z) == value_after(old(self)@, objects@, n as nat, x, y, z));
                    assert(after_x.at(x, y, z) == if objects@[n as int].covers_along(Axis::X, x, y, z) {
                        object.value
                    } else {
                        before.at(x, y, z)
                    });
                    assert(after_y.at(x, y, z) == if objects@[n as int].covers_along(Axis::Y, x, y, z) {
                        object.value
                    } else {
                        after_x.at(x, y, z)
                    });
                }
            }
            n = n + 1;
        }
    }
}

/// Voxelizing no object after a clear leaves every voxel at the colour of
/// the clear.
pub proof fn lemma_clear_then_nothing_keeps_colour<T>(
    cleared: VolumeView<T>,
    colour: T,
    objects: Seq<VoxelObject<T>>,
    x: int,
    y: int,
    z: int,
)
    requires
        cleared.wf(),
        forall|i: int| 0 <= i < cleared.cells.len() ==> cleared.cells[i] == colour,
        objects.len() == 0,
        cleared.contains(x, y, z),
    ensures
        value_after(cleared, objects, objects.len(), x, y, z) == colour,
{
    lemma_voxel_index(cleared.sx, cleared.sy, cleared.sz, x, y, z);
}

/// A voxel that the last object covers in any one of the three projections
/// holds that object's value, whichever projection it is.
pub proof fn lemma_any_axis_marks<T>(
    before: VolumeView<T>,
    objects: Seq<VoxelObject<T>>,
    axis: Axis,
    x: int,
    y: int,
    z: int,
)
    requires
        objects.len() >= 1,
        objects[objects.len() - 1].covers_along(axis, x, y, z),
    ensures
        value_after(before, objects, objects.len(), x, y, z) == objects[objects.len() - 1].value,
{
}

/// Whether the samples of one projection cover a triangle conservatively:
/// the voxel of each of its corners is among them. A rasterizer that marks
/// every cell that a triangle touches reports at least these.
pub open spec fn covers_conservatively(samples: Seq<Cell>, corners: (Cell, Cell, Cell)) -> bool {
    &&& among_first(
        samples,
        samples.len() as int,
        corners.0.0 as int,
        corners.0.1 as int,
        corners.0.2 as int,
    )
    &&& among_first(
        samples,
        samples.len() as int,
        corners.1.0 as int,
        corners.1.1 as int,
        corners.1.2 as int,
    )
    &&& among_first(
        samples,
        samples.len() as int,
        corners.2.0 as int,
        corners.2.1 as int,
        corners.2.2 as int,
    )
}

impl<T> VoxelObject<T> {
    /// The samples of the projection along `axis`.
    pub open spec fn samples_along(&self, axis: Axis) -> Seq<Cell> {
        match axis {
            Axis::X => self.along_x@,
            Axis::Y => self.along_y@,
            Axis::Z => self.along_z@,
        }
    }
}

/// A triangle that lies within one voxel marks that voxel, whichever of
/// the three projections it is that covers the triangle conservatively:
/// after the object of the triangle is written, the voxel holds the
/// object's value.
pub proof fn lemma_triangle_within_one_voxel_is_marked<T>(
    before: VolumeView<T>,
    objects: Seq<VoxelObject<T>>,
    axis: Axis,
    corners: (Cell, Cell, Cell),
    x: int,
    y: int,
    z: int,
)
    requires
        objects.len() >= 1,
        before.contains(x, y, z),
        corners.0 == (x as u32, y as u32, z as u32),
        corners.1 == corners.0,
        corners.2 == corners.0,
        covers_conservatively(objects[objects.len() - 1].samples_along(axis), corners),
    ensures
        objects[objects.len() - 1].covers_along(axis, x, y, z),
        value_after(before, objects, objects.len(), x, y, z) == objects[objects.len() - 1].value,
{
    let last = objects[objects.len() - 1];
    assert(last.covers_along(axis, x, y, z));
    lemma_any_axis_marks(before, objects, axis, x, y, z);
}

/// A voxel that no object covers keeps its value.
pub proof fn lemma_uncovered_keeps_value<T>(
    before: VolumeView<T>,
    objects: Seq<VoxelObject<T>>,
    n: nat,
    x: int,
    y: int,
    z: int,
)
    requires
        n <= objects.len(),
        forall|i: int| 0 <= i < n ==> !(#[trigger] objects[i]).covers(x, y, z),
    ensures
        value_after(before, objects, n, x, y, z) == before.at(x, y, z),
    decreases n,
{
    if n > 0 {
        lemma_uncovered_keeps_value(before, objects, (n - 1) as nat, x, y, z);
    }
}

} // verus!
