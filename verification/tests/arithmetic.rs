use radiance_cascades::arith::{ceil_log2_u32, power_of_two};
use radiance_cascades::grid::{cell_count, index_of, MAX_SIDE};

#[test]
fn powers_of_two() {
    assert_eq!(power_of_two(0), 1);
    assert_eq!(power_of_two(1), 2);
    assert_eq!(power_of_two(10), 1024);
    assert_eq!(power_of_two(63), 1u64 << 63);
}

#[test]
fn binary_logarithm_rounds_up() {
    assert_eq!(ceil_log2_u32(0), 0);
    assert_eq!(ceil_log2_u32(1), 0);
    assert_eq!(ceil_log2_u32(2), 1);
    assert_eq!(ceil_log2_u32(3), 2);
    assert_eq!(ceil_log2_u32(4), 2);
    assert_eq!(ceil_log2_u32(5), 3);
    assert_eq!(ceil_log2_u32(1024), 10);
    assert_eq!(ceil_log2_u32(1025), 11);
    assert_eq!(ceil_log2_u32(0x8000_0000), 31);
    assert_eq!(ceil_log2_u32(0x8000_0001), 32);
    assert_eq!(ceil_log2_u32(u32::MAX), 32);
}

#[test]
fn cells_are_counted_and_indexed_row_by_row() {
    assert_eq!(cell_count(0, 7), Some(0));
    assert_eq!(cell_count(1280, 720), Some(921_600));
    assert_eq!(cell_count(u32::MAX, u32::MAX), Some(0xffff_fffe_0000_0001));
    assert_eq!(index_of(4, 3, 0, 0), 0);
    assert_eq!(index_of(4, 3, 3, 0), 3);
    assert_eq!(index_of(4, 3, 0, 1), 4);
    assert_eq!(index_of(4, 3, 3, 2), 11);
    assert_eq!(MAX_SIDE, i32::MAX as u32);
}
