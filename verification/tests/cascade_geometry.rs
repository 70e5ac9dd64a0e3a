use radiance_cascades::cascade::{
    base_interval_length, integrated_level, AtlasLayout, CascadeGeometry, MAX_CASCADES,
};
use radiance_cascades::config::ConfigError;
use radiance_cascades::schedule::{cascade_count_for_screen, cascade_passes, CascadePass};

#[test]
fn base_interval_of_small_spacings() {
    assert_eq!(base_interval_length(0), 0);
    assert_eq!(base_interval_length(1), 2);
    assert_eq!(base_interval_length(2), 2);
    assert_eq!(base_interval_length(3), 4);
    assert_eq!(base_interval_length(4), 4);
    assert_eq!(base_interval_length(5), 4);
    assert_eq!(base_interval_length(6), 6);
    assert_eq!(base_interval_length(100), 72);
}

#[test]
fn base_interval_of_largest_spacing() {
    let e = base_interval_length(u32::MAX) as u128;
    let s = u32::MAX as u128;
    assert_eq!(e % 2, 0);
    assert!(2 * e * e >= s * s);
    assert!(2 * (e - 2) * (e - 2) < s * s);
}

#[test]
fn geometry_of_a_720p_screen() {
    let g = CascadeGeometry::new(6, 1280, 720, 4, 4).unwrap();
    assert_eq!(g.cascade_count(), 6);
    assert_eq!(g.c0_probe_spacing(), 4);
    assert_eq!(g.c0_interval_length(), 4);
    assert_eq!(g.c0_resolution(), (1280, 720));
    assert_eq!(g.level_resolution(0), (1280, 720));
    assert_eq!(g.level_resolution(1), (1280, 360));
    assert_eq!(g.level_resolution(5), (1280, 22));
    assert_eq!(g.probe_spacing(0), 4);
    assert_eq!(g.probe_spacing(3), 32);
}

#[test]
fn spacing_is_rounded_up_to_a_power_of_two() {
    let g = CascadeGeometry::new(2, 1024, 1024, 3, 1).unwrap();
    assert_eq!(g.c0_probe_spacing(), 4);
    assert_eq!(g.c0_interval_length(), 4);
    assert_eq!(g.c0_resolution(), (256, 256));
    let g = CascadeGeometry::new(2, 1024, 1024, 2, 1).unwrap();
    assert_eq!(g.c0_probe_spacing(), 2);
    assert_eq!(g.c0_interval_length(), 2);
    assert_eq!(g.c0_resolution(), (512, 512));
}

#[test]
fn intervals_tile_without_gap() {
    let g = CascadeGeometry::new(6, 1280, 720, 4, 4).unwrap();
    assert_eq!(g.interval_start(0), 0);
    assert_eq!(g.interval_end(0), 4);
    assert_eq!(g.interval_start(1), 4);
    assert_eq!(g.interval_end(1), 12);
    assert_eq!(g.interval_start(2), 12);
    assert_eq!(g.interval_end(2), 28);
    for n in 0..5 {
        assert_eq!(g.interval_end(n), g.interval_start(n + 1));
    }
    assert_eq!(g.interval_end(5), 4 * 63);
}

#[test]
fn intervals_of_the_deepest_hierarchy_fit() {
    let g = CascadeGeometry::new(32, 1, u32::MAX, 1, 1).unwrap();
    assert_eq!(g.level_resolution(31), (1, 1));
    assert_eq!(g.interval_start(31), 2 * ((1u64 << 31) - 1));
    assert_eq!(g.interval_end(31), 2 * ((1u64 << 32) - 1));
}

#[test]
fn invalid_geometry_is_rejected() {
    assert_eq!(CascadeGeometry::new(0, 1280, 720, 4, 4).err(), Some(ConfigError::NoCascades));
    assert_eq!(CascadeGeometry::new(6, 1280, 720, 0, 4).err(), Some(ConfigError::ZeroProbeSpacing));
    assert_eq!(CascadeGeometry::new(6, 1280, 720, 4, 0).err(), Some(ConfigError::ZeroProbeSpacing));
    assert_eq!(CascadeGeometry::new(6, 0, 720, 4, 4).err(), Some(ConfigError::EmptyGrid));
    assert_eq!(CascadeGeometry::new(6, 1280, 0, 4, 4).err(), Some(ConfigError::EmptyGrid));
    assert_eq!(CascadeGeometry::new(6, 1280, 16, 4, 1).err(), Some(ConfigError::EmptyGrid));
    assert_eq!(CascadeGeometry::new(33, 1, u32::MAX, 1, 1).err(), Some(ConfigError::EmptyGrid));
    assert_eq!(CascadeGeometry::new(1, 2, u32::MAX, 1, 2).err(), Some(ConfigError::TooLarge));
    assert_eq!(CascadeGeometry::new(1, 8, 8, u32::MAX, 1).err(), Some(ConfigError::TooLarge));
    assert_eq!(CascadeGeometry::new(1, 8, 8, 16, 1).err(), Some(ConfigError::EmptyGrid));
}

#[test]
fn config_errors_have_messages() {
    assert_eq!(ConfigError::NoCascades.message(), "cascade count must be at least one");
    assert_eq!(ConfigError::EmptyVoxelGrid.message(), "voxel resolution must be non-zero on every axis");
    assert_eq!(ConfigError::SizeMismatch.message(), "buffer length does not match the grid dimensions");
}

#[test]
fn passes_run_from_coarsest_to_finest() {
    let passes = cascade_passes(4, true);
    assert_eq!(
        passes,
        vec![
            CascadePass { level: 3, bound_level: None, merges: false },
            CascadePass { level: 2, bound_level: Some(3), merges: true },
            CascadePass { level: 1, bound_level: Some(2), merges: true },
            CascadePass { level: 0, bound_level: Some(1), merges: true },
        ]
    );
}

#[test]
fn merging_disabled_isolates_every_cascade() {
    let passes = cascade_passes(4, false);
    assert_eq!(passes.len(), 4);
    for (i, pass) in passes.iter().enumerate() {
        assert_eq!(pass.level as usize, 3 - i);
        assert!(!pass.merges);
        assert_eq!(pass.bound_level, None);
    }
    assert!(cascade_passes(0, true).is_empty());
}

#[test]
fn no_pass_reads_the_cascade_it_writes() {
    for count in 1..=8u32 {
        for merge in [false, true] {
            let passes = cascade_passes(count, merge);
            assert_eq!(passes.len() as u32, count);
            assert_eq!(passes[0].level, count - 1);
            assert_eq!(passes[0].bound_level, None);
            for (i, pass) in passes.iter().enumerate() {
                assert!(pass.level < count);
                assert_ne!(pass.bound_level, Some(pass.level));
                assert_eq!(pass.merges, pass.bound_level.is_some());
                if let Some(bound) = pass.bound_level {
                    assert!(bound < count);
                    assert_eq!(bound, pass.level + 1);
                    assert_eq!(bound, passes[i - 1].level);
                }
            }
        }
    }
    assert_eq!(
        cascade_passes(1, true),
        vec![CascadePass { level: 0, bound_level: None, merges: false }]
    );
}

#[test]
fn integration_samples_the_finest_cascade() {
    let g = CascadeGeometry::new(6, 1280, 720, 4, 4).unwrap();
    for requested in [0, 1, 5, 6, 100, usize::MAX] {
        assert_eq!(integrated_level(false, requested, &g), 0);
    }
    assert_eq!(integrated_level(true, 0, &g), 0);
    assert_eq!(integrated_level(true, 3, &g), 3);
    assert_eq!(integrated_level(true, 5, &g), 5);
    assert_eq!(integrated_level(true, 6, &g), 0);
    assert_eq!(integrated_level(true, usize::MAX, &g), 0);
}

#[test]
fn a_uniform_hierarchy_needs_no_row_to_halve() {
    // Six cascades on a low screen: the rows of a halving atlas run out.
    assert_eq!(CascadeGeometry::new(6, 1920, 40, 2, 1).err(), Some(ConfigError::EmptyGrid));
    let g = CascadeGeometry::uniform(6, 1920, 40, 2, 1).unwrap();
    assert_eq!(g.atlas_layout(), AtlasLayout::Uniform);
    assert_eq!(g.cascade_count(), 6);
    assert_eq!(g.c0_probe_spacing(), 2);
    assert_eq!(g.c0_interval_length(), 2);
    assert_eq!(g.c0_resolution(), (960, 20));
    for level in 0..6 {
        assert_eq!(g.level_resolution(level), (960, 20));
    }
    assert_eq!(g.interval_end(5), 2 * 63);
    let halving = CascadeGeometry::new(6, 1280, 720, 4, 4).unwrap();
    assert_eq!(halving.atlas_layout(), AtlasLayout::Halving);
}

#[test]
fn invalid_uniform_geometry_is_rejected() {
    assert_eq!(CascadeGeometry::uniform(0, 8, 8, 2, 1).err(), Some(ConfigError::NoCascades));
    assert_eq!(CascadeGeometry::uniform(1, 8, 8, 0, 1).err(), Some(ConfigError::ZeroProbeSpacing));
    assert_eq!(CascadeGeometry::uniform(1, 8, 8, 2, 0).err(), Some(ConfigError::ZeroProbeSpacing));
    assert_eq!(CascadeGeometry::uniform(1, 0, 8, 2, 1).err(), Some(ConfigError::EmptyGrid));
    assert_eq!(CascadeGeometry::uniform(1, 8, 8, 16, 1).err(), Some(ConfigError::EmptyGrid));
    assert_eq!(CascadeGeometry::uniform(1, 2, u32::MAX, 1, 2).err(), Some(ConfigError::TooLarge));
    assert_eq!(MAX_CASCADES, 32);
    assert!(CascadeGeometry::uniform(32, 8, 8, 2, 1).is_ok());
    assert_eq!(CascadeGeometry::uniform(33, 8, 8, 2, 1).err(), Some(ConfigError::TooLarge));
    // The bound on the cascades is looked at before the atlas that comes out empty.
    assert_eq!(CascadeGeometry::uniform(33, 8, 8, 16, 1).err(), Some(ConfigError::TooLarge));
}

#[test]
fn cascade_count_follows_the_diagonal() {
    assert_eq!(cascade_count_for_screen(0, 0), 0);
    assert_eq!(cascade_count_for_screen(1, 0), 0);
    assert_eq!(cascade_count_for_screen(1, 1), 1);
    assert_eq!(cascade_count_for_screen(4, 0), 1);
    assert_eq!(cascade_count_for_screen(4, 1), 2);
    assert_eq!(cascade_count_for_screen(1024, 1024), 6);
    assert_eq!(cascade_count_for_screen(1280, 720), 6);
    assert_eq!(cascade_count_for_screen(u32::MAX, u32::MAX), 17);
}
