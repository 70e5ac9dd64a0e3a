use radiance_cascades::config::ConfigError;
use radiance_cascades::grid::check_grid;
use radiance_cascades::jfa::{
    distance_field, flood_passes, flooded_slot, jump_distance, squared_distance, FloodPass,
    SeedField,
};
use radiance_cascades::pingpong::{slots_for_pass, Slot};

fn occupancy(width: u32, height: u32, seeds: &[(u32, u32)]) -> Vec<bool> {
    let mut cells = vec![false; (width * height) as usize];
    for &(x, y) in seeds {
        cells[(y * width + x) as usize] = true;
    }
    cells
}

fn brute_force(width: u32, height: u32, seeds: &[(u32, u32)]) -> Vec<Option<u64>> {
    let mut out = Vec::new();
    for y in 0..height {
        for x in 0..width {
            out.push(seeds.iter().map(|&s| squared_distance(x, y, s)).min());
        }
    }
    out
}

#[test]
fn single_seed_gives_exact_distances() {
    for &(n, x0, y0) in &[(1u32, 0u32, 0u32), (2, 1, 0), (8, 3, 5), (16, 0, 0), (16, 15, 15), (17, 9, 2)] {
        let field = distance_field(n, n, &occupancy(n, n, &[(x0, y0)])).unwrap();
        for y in 0..n {
            for x in 0..n {
                let dx = x as i64 - x0 as i64;
                let dy = y as i64 - y0 as i64;
                assert_eq!(field[(y * n + x) as usize], Some((dx * dx + dy * dy) as u64));
            }
        }
        assert_eq!(field[(y0 * n + x0) as usize], Some(0));
    }
}

#[test]
fn single_seed_in_a_grid_that_is_not_square() {
    let field = distance_field(5, 9, &occupancy(5, 9, &[(4, 7)])).unwrap();
    assert_eq!(field, brute_force(5, 9, &[(4, 7)]));
    let field = distance_field(33, 3, &occupancy(33, 3, &[(0, 1)])).unwrap();
    assert_eq!(field, brute_force(33, 3, &[(0, 1)]));
    assert_eq!(field[1 * 33 + 32], Some(32 * 32));
}

#[test]
fn seeds_are_at_distance_zero() {
    let seeds = [(0, 0), (5, 1), (2, 6), (7, 7), (3, 3)];
    let field = distance_field(8, 8, &occupancy(8, 8, &seeds)).unwrap();
    for &(x, y) in &seeds {
        assert_eq!(field[(y * 8 + x) as usize], Some(0));
    }
    assert!(field.iter().all(|d| d.is_some()));
}

#[test]
fn two_seeds_split_the_grid() {
    let seeds = [(0, 0), (7, 0)];
    let field = distance_field(8, 1, &occupancy(8, 1, &seeds)).unwrap();
    assert_eq!(
        field,
        vec![Some(0), Some(1), Some(4), Some(9), Some(9), Some(4), Some(1), Some(0)]
    );
}

#[test]
fn distances_never_fall_below_the_nearest_seed() {
    let seeds = [(1, 1), (6, 2), (3, 7), (12, 12), (0, 15)];
    let field = distance_field(16, 16, &occupancy(16, 16, &seeds)).unwrap();
    let exact = brute_force(16, 16, &seeds);
    for (found, least) in field.iter().zip(exact.iter()) {
        assert!(found.unwrap() >= least.unwrap());
    }
}

#[test]
fn no_seed_means_no_data() {
    let field = distance_field(6, 4, &vec![false; 24]).unwrap();
    assert_eq!(field, vec![None; 24]);
}

#[test]
fn grid_faults_are_reported() {
    assert_eq!(distance_field(0, 4, &vec![]).err(), Some(ConfigError::EmptyGrid));
    assert_eq!(distance_field(4, 0, &vec![]).err(), Some(ConfigError::EmptyGrid));
    assert_eq!(distance_field(4, 4, &vec![false; 15]).err(), Some(ConfigError::SizeMismatch));
    assert_eq!(distance_field(0x8000_0000, 1, &vec![false; 1]).err(), Some(ConfigError::TooLarge));
    assert_eq!(check_grid(3, 5, 15), Ok(()));
    assert_eq!(check_grid(3, 5, 16), Err(ConfigError::SizeMismatch));
    assert_eq!(check_grid(0x7fff_ffff, 0x7fff_ffff, 1), Err(ConfigError::SizeMismatch));
}

#[test]
fn seed_pass_marks_occupied_cells() {
    let field = SeedField::from_occupancy(3, 2, &occupancy(3, 2, &[(2, 0), (0, 1)])).unwrap();
    assert_eq!(field.width(), 3);
    assert_eq!(field.height(), 2);
    assert_eq!(field.nearest(2, 0), Some((2, 0)));
    assert_eq!(field.nearest(0, 1), Some((0, 1)));
    assert_eq!(field.nearest(1, 1), None);
    assert_eq!(field.nearest(3, 0), None);
    assert_eq!(field.nearest(0, 2), None);
}

#[test]
fn one_flood_pass_reaches_the_neighbours_at_the_jump() {
    let field = SeedField::from_occupancy(5, 5, &occupancy(5, 5, &[(2, 2)])).unwrap();
    let next = field.flood_pass(2);
    for y in 0..5 {
        for x in 0..5 {
            let reached = x % 2 == 0 && y % 2 == 0;
            assert_eq!(next.nearest(x, y), if reached { Some((2, 2)) } else { None });
        }
    }
    // The field that was read is as it was.
    assert_eq!(field.nearest(0, 0), None);
    assert_eq!(field.nearest(2, 2), Some((2, 2)));
}

#[test]
fn first_candidate_wins_a_tie() {
    // Cell (2, 0) is equally far from both seeds; the candidate to the left
    // is examined first.
    let field = SeedField::from_occupancy(5, 1, &occupancy(5, 1, &[(0, 0), (4, 0)])).unwrap();
    let next = field.flood_pass(2);
    assert_eq!(next.nearest(2, 0), Some((0, 0)));
    // Rows are enumerated before columns: the candidate above comes first.
    let field = SeedField::from_occupancy(3, 3, &occupancy(3, 3, &[(1, 0), (0, 1)])).unwrap();
    let next = field.flood_pass(1);
    assert_eq!(next.nearest(1, 1), Some((1, 0)));
    assert_eq!(next.nearest(0, 0), Some((1, 0)));
}

#[test]
fn flood_is_the_sequence_of_its_passes() {
    let field = SeedField::from_occupancy(6, 3, &occupancy(6, 3, &[(5, 0), (1, 2)])).unwrap();
    let by_hand = field.flood_pass(8).flood_pass(4).flood_pass(2).flood_pass(1);
    assert_eq!(field.flood().distances(), by_hand.distances());
}

#[test]
fn squared_distance_is_exact() {
    assert_eq!(squared_distance(3, 4, (0, 0)), 25);
    assert_eq!(squared_distance(0, 0, (3, 4)), 25);
    assert_eq!(squared_distance(7, 7, (7, 7)), 0);
    assert_eq!(
        squared_distance(0, 0, (0x7fff_ffff, 0x7fff_ffff)),
        2 * 0x7fff_ffffu64 * 0x7fff_ffffu64
    );
}

#[test]
fn jumps_halve_down_to_one() {
    let passes = flood_passes(1024, 768).unwrap();
    let jumps: Vec<u32> = passes.iter().map(|p| p.jump).collect();
    assert_eq!(jumps, vec![1024, 512, 256, 128, 64, 32, 16, 8, 4, 2, 1]);
    let passes = flood_passes(5, 3).unwrap();
    assert_eq!(
        passes,
        vec![
            FloodPass { jump: 8, reads: Slot::Current, writes: Slot::Previous },
            FloodPass { jump: 4, reads: Slot::Previous, writes: Slot::Current },
            FloodPass { jump: 2, reads: Slot::Current, writes: Slot::Previous },
            FloodPass { jump: 1, reads: Slot::Previous, writes: Slot::Current },
        ]
    );
    assert_eq!(flood_passes(1, 1).unwrap().len(), 1);
    assert_eq!(flood_passes(0x7fff_ffff, 1).unwrap()[0].jump, 0x8000_0000);
    assert_eq!(jump_distance(0), 1);
    assert_eq!(jump_distance(31), 0x8000_0000);
}

#[test]
fn flood_schedule_rejects_bad_sides() {
    assert_eq!(flood_passes(0, 5).err(), Some(ConfigError::EmptyGrid));
    assert_eq!(flood_passes(5, 0).err(), Some(ConfigError::EmptyGrid));
    assert_eq!(flood_passes(0x8000_0000, 5).err(), Some(ConfigError::TooLarge));
}

#[test]
fn no_pass_reads_what_it_writes() {
    let passes = flood_passes(640, 480).unwrap();
    for (i, pass) in passes.iter().enumerate() {
        assert_ne!(pass.reads, pass.writes);
        if i > 0 {
            assert_eq!(pass.reads, passes[i - 1].writes);
        }
    }
    assert_eq!(flooded_slot(passes.len() as u32), passes[passes.len() - 1].writes);
    assert_eq!(flooded_slot(0), Slot::Current);
    assert_eq!(slots_for_pass(0), (Slot::Current, Slot::Previous));
    assert_eq!(slots_for_pass(1), (Slot::Previous, Slot::Current));
    assert_eq!(Slot::Current.swapped(), Slot::Previous);
    assert_eq!(Slot::Previous.swapped(), Slot::Current);
}
