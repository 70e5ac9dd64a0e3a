use radiance_cascades::config::ConfigError;
use radiance_cascades::voxel::{voxel_count, Axis, VoxelGrid, VoxelObject};

type Color = [u16; 4];

const CLEAR: Color = [0, 0, 0, 0];
const RED: Color = [255, 0, 0, 255];
const BLUE: Color = [0, 0, 255, 255];

fn object(value: Color, x: &[(u32, u32, u32)], y: &[(u32, u32, u32)], z: &[(u32, u32, u32)]) -> VoxelObject<Color> {
    VoxelObject { value, along_x: x.to_vec(), along_y: y.to_vec(), along_z: z.to_vec() }
}

fn all_cells(grid: &VoxelGrid<Color>) -> Vec<Color> {
    let (sx, sy, sz) = grid.resolution();
    let mut cells = Vec::new();
    for z in 0..sz {
        for y in 0..sy {
            for x in 0..sx {
                cells.push(grid.get(x, y, z).unwrap());
            }
        }
    }
    cells
}

#[test]
fn clear_then_nothing_leaves_the_clear_colour() {
    let colour: Color = [1, 2, 3, 4];
    let mut grid = VoxelGrid::new(4, 3, 2, RED).unwrap();
    grid.clear(colour);
    grid.voxelize(&vec![]);
    assert_eq!(all_cells(&grid), vec![colour; 24]);
}

#[test]
fn new_grid_holds_the_fill() {
    let grid = VoxelGrid::new(2, 2, 2, BLUE).unwrap();
    assert_eq!(grid.resolution(), (2, 2, 2));
    assert_eq!(all_cells(&grid), vec![BLUE; 8]);
    assert_eq!(grid.get(2, 0, 0), None);
    assert_eq!(grid.get(0, 2, 0), None);
    assert_eq!(grid.get(0, 0, 2), None);
}

#[test]
fn a_voxel_covered_along_any_axis_is_marked() {
    let cell = (1, 2, 3);
    let cases = [
        object(RED, &[cell], &[], &[]),
        object(RED, &[], &[cell], &[]),
        object(RED, &[], &[], &[cell]),
        object(RED, &[cell], &[cell], &[cell]),
    ];
    for case in cases {
        let mut grid = VoxelGrid::new(4, 4, 4, CLEAR).unwrap();
        grid.voxelize(&vec![case]);
        for z in 0..4 {
            for y in 0..4 {
                for x in 0..4 {
                    let expected = if (x, y, z) == cell { RED } else { CLEAR };
                    assert_eq!(grid.get(x, y, z), Some(expected));
                }
            }
        }
    }
}

#[test]
fn later_objects_overwrite_earlier_ones() {
    let mut grid = VoxelGrid::new(3, 1, 1, CLEAR).unwrap();
    grid.voxelize(&vec![
        object(RED, &[(0, 0, 0), (1, 0, 0)], &[], &[]),
        object(BLUE, &[], &[], &[(1, 0, 0)]),
    ]);
    assert_eq!(all_cells(&grid), vec![RED, BLUE, CLEAR]);
}

#[test]
fn samples_outside_the_grid_are_discarded() {
    let mut grid = VoxelGrid::new(2, 2, 2, CLEAR).unwrap();
    grid.voxelize(&vec![object(RED, &[(2, 0, 0)], &[(0, 5, 0)], &[(0, 0, 2), (1, 1, 1)])]);
    let mut expected = vec![CLEAR; 8];
    expected[7] = RED;
    assert_eq!(all_cells(&grid), expected);
    assert!(!grid.store((2, 1, 1), BLUE));
    assert!(grid.store((0, 1, 0), BLUE));
    expected[2] = BLUE;
    assert_eq!(all_cells(&grid), expected);
}

#[test]
fn store_all_marks_each_sample() {
    let mut grid = VoxelGrid::new(2, 3, 2, CLEAR).unwrap();
    grid.store_all(&vec![(1, 0, 0), (0, 2, 1), (1, 0, 0), (9, 9, 9)], RED);
    for z in 0..2 {
        for y in 0..3 {
            for x in 0..2 {
                let hit = (x, y, z) == (1, 0, 0) || (x, y, z) == (0, 2, 1);
                assert_eq!(grid.get(x, y, z), Some(if hit { RED } else { CLEAR }));
            }
        }
    }
}

#[test]
fn resolution_faults_are_reported() {
    assert_eq!(voxel_count(256, 256, 256), Ok(16_777_216));
    assert_eq!(voxel_count(1, 1, 0x7fff_ffff), Ok(0x7fff_ffff));
    assert_eq!(voxel_count(0, 256, 256), Err(ConfigError::EmptyVoxelGrid));
    assert_eq!(voxel_count(256, 0, 256), Err(ConfigError::EmptyVoxelGrid));
    assert_eq!(voxel_count(256, 256, 0), Err(ConfigError::EmptyVoxelGrid));
    assert_eq!(voxel_count(2048, 2048, 2048), Err(ConfigError::TooLarge));
    assert_eq!(voxel_count(0x8000_0000, 1, 1), Err(ConfigError::TooLarge));
    assert_eq!(voxel_count(0x10000, 0x10000, 1), Err(ConfigError::TooLarge));
    assert_eq!(VoxelGrid::new(0, 1, 1, CLEAR).err(), Some(ConfigError::EmptyVoxelGrid));
    assert_eq!(VoxelGrid::new(2048, 2048, 2048, CLEAR).err(), Some(ConfigError::TooLarge));
}

#[test]
fn projection_axes_are_orthogonal() {
    let axes = Axis::all();
    assert_eq!(axes, [Axis::X, Axis::Y, Axis::Z]);
    assert_eq!(Axis::X.view_direction(), (1, 0, 0));
    assert_eq!(Axis::Y.view_direction(), (0, 1, 0));
    assert_eq!(Axis::Z.view_direction(), (0, 0, -1));
    assert_eq!(Axis::X.up(), (0, 1, 0));
    assert_eq!(Axis::Y.up(), (0, 0, 1));
    assert_eq!(Axis::Z.up(), (0, 1, 0));
    let dot = |a: (i8, i8, i8), b: (i8, i8, i8)| a.0 * b.0 + a.1 * b.1 + a.2 * b.2;
    for a in axes {
        assert_eq!(dot(a.view_direction(), a.up()), 0);
        for b in axes {
            if a != b {
                assert_eq!(dot(a.view_direction(), b.view_direction()), 0);
            }
        }
    }
}
