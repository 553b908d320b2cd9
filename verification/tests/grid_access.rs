use cl_voxel::cell::{corner_mask, is_active, read_corners};
use cl_voxel::error::ConfigurationError;
use cl_voxel::grid::{coords, SdfGrid, MAX_CHUNK_SIZE};

fn counting(n: usize) -> Vec<i32> {
    let m = n + 1;
    (0..(m * m * m) as i32).collect()
}

#[test]
fn grid_accepts_a_full_lattice() {
    let samples = counting(2);
    let grid = SdfGrid::new(&samples, 2).unwrap();
    assert_eq!(grid.size(), 2);
    assert_eq!(grid.len(), 27);
}

#[test]
fn grid_refuses_a_wrong_sample_count() {
    let samples = counting(2);
    assert!(matches!(
        SdfGrid::new(&samples[..26], 2),
        Err(ConfigurationError::SampleCountMismatch)
    ));
    assert!(matches!(
        SdfGrid::new(&samples, 1),
        Err(ConfigurationError::SampleCountMismatch)
    ));
    assert!(matches!(
        SdfGrid::new(&samples, 3),
        Err(ConfigurationError::SampleCountMismatch)
    ));
}

#[test]
fn grid_refuses_an_empty_chunk() {
    let samples = vec![0];
    assert!(matches!(
        SdfGrid::new(&samples, 0),
        Err(ConfigurationError::NonPositiveChunkDimension)
    ));
}

#[test]
fn grid_refuses_a_chunk_beyond_the_limit() {
    let samples = counting(1);
    assert_eq!(MAX_CHUNK_SIZE, 1625);
    assert!(matches!(
        SdfGrid::new(&samples, MAX_CHUNK_SIZE + 1),
        Err(ConfigurationError::ChunkTooLarge)
    ));
    assert!(matches!(
        SdfGrid::new(&samples, MAX_CHUNK_SIZE),
        Err(ConfigurationError::SampleCountMismatch)
    ));
}

#[test]
fn the_largest_chunk_has_no_more_cells_than_a_u32_counts() {
    let n = MAX_CHUNK_SIZE as u64;
    assert!(n * n * n <= u32::MAX as u64);
    assert!((n + 1) * (n + 1) * (n + 1) > u32::MAX as u64);
}

#[test]
fn samples_are_laid_out_x_then_z_then_y() {
    let samples = counting(2);
    let grid = SdfGrid::new(&samples, 2).unwrap();
    for y in 0..3usize {
        for z in 0..3usize {
            for x in 0..3usize {
                assert_eq!(grid.sample(x, y, z), Some((x + z * 3 + y * 9) as i32));
                assert_eq!(grid.at(x, y, z), (x + z * 3 + y * 9) as i32);
            }
        }
    }
}

#[test]
fn sample_outside_the_lattice_is_none() {
    let samples = counting(2);
    let grid = SdfGrid::new(&samples, 2).unwrap();
    assert_eq!(grid.sample(3, 0, 0), None);
    assert_eq!(grid.sample(0, 3, 0), None);
    assert_eq!(grid.sample(0, 0, 3), None);
    assert_eq!(grid.sample(usize::MAX, 0, 0), None);
    assert_eq!(grid.sample(2, 2, 2), Some(26));
}

#[test]
fn coords_invert_the_layout() {
    for m in 1..5usize {
        for i in 0..m * m * m {
            let (x, y, z) = coords(m, i);
            assert!(x < m && y < m && z < m);
            assert_eq!(x + z * m + y * m * m, i);
        }
    }
    assert_eq!(coords(3, 5), (2, 0, 1));
    assert_eq!(coords(3, 9), (0, 1, 0));
}

#[test]
fn trilinear_at_a_lattice_point_is_the_sample() {
    let samples = counting(2);
    let grid = SdfGrid::new(&samples, 2).unwrap();
    for y in 0..3i64 {
        for z in 0..3i64 {
            for x in 0..3i64 {
                // Sixteen more fractional bits than the samples have.
                assert_eq!(
                    grid.trilinear(x * 65536, y * 65536, z * 65536),
                    Some((x + z * 3 + y * 9) * 65536)
                );
            }
        }
    }
}

#[test]
fn trilinear_blends_the_eight_corners() {
    let samples = vec![0, 8, 16, 24, 32, 40, 48, 56];
    let grid = SdfGrid::new(&samples, 1).unwrap();
    // The value at (x, y, z) is 8 x + 16 z + 32 y.
    assert_eq!(grid.trilinear(32768, 32768, 32768), Some(28 * 65536));
    assert_eq!(grid.trilinear(16384, 0, 0), Some(2 * 65536));
    assert_eq!(grid.trilinear(0, 16384, 0), Some(8 * 65536));
    assert_eq!(grid.trilinear(0, 0, 16384), Some(4 * 65536));
    assert_eq!(grid.trilinear(1, 0, 0), Some(8));
    assert_eq!(grid.interpolate(65536, 65536, 65536), 56 * 65536);
}

#[test]
fn trilinear_rounds_down() {
    // One corner at -1, the others at 0: at the centre the value is -1/8.
    let samples = vec![-1, 0, 0, 0, 0, 0, 0, 0];
    let grid = SdfGrid::new(&samples, 1).unwrap();
    assert_eq!(grid.trilinear(32768, 32768, 32768), Some(-8192));
    // Next to the opposite corner the weight of the corner is 2^-48.
    assert_eq!(grid.trilinear(65535, 65535, 65535), Some(-1));
    let up = vec![1, 0, 0, 0, 0, 0, 0, 0];
    let grid_up = SdfGrid::new(&up, 1).unwrap();
    assert_eq!(grid_up.trilinear(65535, 65535, 65535), Some(0));
}

#[test]
fn trilinear_outside_the_volume_is_none() {
    let samples = counting(2);
    let grid = SdfGrid::new(&samples, 2).unwrap();
    assert_eq!(grid.trilinear(-1, 0, 0), None);
    assert_eq!(grid.trilinear(0, 2 * 65536 + 1, 0), None);
    assert_eq!(grid.trilinear(0, 0, i64::MAX), None);
    assert_eq!(grid.trilinear(2 * 65536, 2 * 65536, 2 * 65536), Some(26 * 65536));
}

#[test]
fn trilinear_takes_the_extremes() {
    let low = vec![i32::MIN; 8];
    let grid = SdfGrid::new(&low, 1).unwrap();
    assert_eq!(grid.trilinear(12345, 54321, 777), Some((i32::MIN as i64) * 65536));
    let high = vec![i32::MAX; 8];
    let grid_high = SdfGrid::new(&high, 1).unwrap();
    assert_eq!(
        grid_high.trilinear(12345, 54321, 777),
        Some((i32::MAX as i64) * 65536)
    );
}

#[test]
fn corners_are_numbered_by_their_offsets() {
    let samples = counting(2);
    let grid = SdfGrid::new(&samples, 2).unwrap();
    // Corner k lies at (k & 1, (k >> 1) & 1, k >> 2) from the cell's minimum corner.
    assert_eq!(read_corners(&grid, 0, 0, 0), [0, 1, 9, 10, 3, 4, 12, 13]);
    assert_eq!(read_corners(&grid, 1, 1, 1), [13, 14, 22, 23, 16, 17, 25, 26]);
}

#[test]
fn mask_has_a_bit_for_each_inside_corner() {
    assert_eq!(corner_mask(&[1, 1, 1, 1, 1, 1, 1, 1], 0), 0);
    assert_eq!(corner_mask(&[-1, -1, -1, -1, -1, -1, -1, -1], 0), 255);
    assert_eq!(corner_mask(&[-1, 1, 1, 1, 1, 1, 1, 1], 0), 1);
    assert_eq!(corner_mask(&[1, 1, 1, 1, 1, 1, 1, -1], 0), 128);
    assert_eq!(corner_mask(&[1, -1, 1, -1, 1, -1, 1, -1], 0), 0b1010_1010);
    assert_eq!(corner_mask(&[0, 1, 2, 3, 4, 5, 6, 7], 3), 0b0000_0111);
}

#[test]
fn a_sample_at_the_level_is_outside() {
    assert_eq!(corner_mask(&[0, 0, 0, 0, 0, 0, 0, 0], 0), 0);
    assert!(!is_active(&[0, 0, 0, 0, 0, 0, 0, 0], 0));
    assert!(!is_active(&[0, 1, 0, 1, 0, 1, 0, 1], 0));
    assert!(is_active(&[0, -1, 0, 1, 0, 1, 0, 1], 0));
}

#[test]
fn a_cell_is_active_when_its_corners_disagree() {
    assert!(!is_active(&[5, 5, 5, 5, 5, 5, 5, 5], 0));
    assert!(!is_active(&[-5, -5, -5, -5, -5, -5, -5, -5], 0));
    for k in 0..8 {
        let mut c = [5; 8];
        c[k] = -5;
        assert!(is_active(&c, 0));
        let mut d = [-5; 8];
        d[k] = 5;
        assert!(is_active(&d, 0));
    }
}
