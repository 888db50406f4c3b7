use bravie::fft_map::{all_distinct_below, build_flat_map, gather, scatter, wrap_index, GridIndexMap};
use num_complex::Complex64;

#[test]
fn wrap_negative_offsets() {
    assert_eq!(wrap_index(0, 4), 0);
    assert_eq!(wrap_index(1, 4), 1);
    assert_eq!(wrap_index(4, 4), 0);
    assert_eq!(wrap_index(5, 4), 1);
    assert_eq!(wrap_index(-1, 4), 3);
    assert_eq!(wrap_index(-4, 4), 0);
    assert_eq!(wrap_index(-5, 4), 3);
    assert_eq!(wrap_index(i32::MIN, 3), 1);
    assert_eq!(wrap_index(7, 1), 0);
}

#[test]
fn flat_map_row_major_positions() {
    let g = vec![(0, 0, 0), (1, 0, 0), (-1, 0, 0), (0, -1, 0), (1, 2, 3)];
    let map = build_flat_map(&g, [4, 4, 4]);
    assert_eq!(map, vec![0, 16, 48, 12, 27]);
}

#[test]
fn flat_map_respects_each_axis_length() {
    let g = vec![(-1, -1, -1)];
    let map = build_flat_map(&g, [2, 3, 5]);
    // wrapped offsets (1, 2, 4) -> 1 * 15 + 2 * 5 + 4
    assert_eq!(map, vec![29]);
}

#[test]
fn distinctness_check() {
    assert!(all_distinct_below(&vec![0, 5, 3], 6));
    assert!(!all_distinct_below(&vec![0, 5, 3, 5], 6));
    assert!(all_distinct_below(&vec![], 0));
}

#[test]
fn scatter_then_gather_is_identity() {
    let coeffs = vec![1.5f64, 2.5, -3.0];
    let map = vec![5usize, 0, 9];
    let mut grid = vec![7.0f64; 12];
    scatter(&coeffs, &map, &mut grid, 0.0);
    assert_eq!(grid[5], 1.5);
    assert_eq!(grid[0], 2.5);
    assert_eq!(grid[9], -3.0);
    for p in 0..12 {
        if p != 5 && p != 0 && p != 9 {
            assert_eq!(grid[p], 0.0);
        }
    }
    let back = gather(&grid, &map);
    assert_eq!(back, coeffs);
}

#[test]
fn complex_coefficient_round_trip() {
    let coeffs = vec![
        Complex64::new(1.0, -2.0),
        Complex64::new(0.5, 0.25),
        Complex64::new(-4.0, 3.0),
        Complex64::new(0.0, 1.0),
    ];
    let g = vec![(0, 0, 0), (1, 0, 0), (0, 1, 0), (-1, -1, -1)];
    let dims = [3usize, 3, 3];
    let map = build_flat_map(&g, dims);
    assert!(all_distinct_below(&map, 27));
    let mut grid = vec![Complex64::new(9.0, 9.0); 27];
    scatter(&coeffs, &map, &mut grid, Complex64::new(0.0, 0.0));
    let back = gather(&grid, &map);
    assert_eq!(back, coeffs);
}

#[test]
fn single_point_grid_maps_everything_to_origin() {
    let g = vec![(0, 0, 0), (5, -7, 3)];
    let map = build_flat_map(&g, [1, 1, 1]);
    assert_eq!(map, vec![0, 0]);
    assert!(!all_distinct_below(&map, 1));
}

#[test]
fn gather_reads_mapped_positions() {
    let grid = vec![10i64, 11, 12, 13];
    let map = vec![3usize, 3, 0];
    assert_eq!(gather(&grid, &map), vec![13, 13, 10]);
}

#[test]
fn index_map_round_trip() {
    let g = vec![(0, 0, 0), (1, 0, 0), (-1, 0, 0), (0, 1, 1)];
    let m = GridIndexMap::new(&g, [4, 4, 4]).expect("collision-free map");
    assert_eq!(m.len(), 4);
    assert_eq!(m.total_points(), 64);

    let coeffs = vec![1.0f64, -2.0, 3.5, 0.25];
    let mut grid = vec![0.0f64; m.total_points()];
    m.scatter_into(&coeffs, &mut grid, 0.0);
    assert_eq!(m.gather_from(&grid), coeffs);
}

#[test]
fn offsets_inside_window_never_collide() {
    // Every offset with magnitude strictly below half the axis length maps
    // to its own buffer position.
    let dims = [4usize, 5, 6];
    let mut g: Vec<(i32, i32, i32)> = Vec::new();
    for a in -1..=1 {
        for b in -2..=2 {
            for c in -2..=2 {
                g.push((a, b, c));
            }
        }
    }
    let map = build_flat_map(&g, dims);
    assert!(all_distinct_below(&map, dims[0] * dims[1] * dims[2]));
}

#[test]
fn index_map_rejects_aliasing_offsets() {
    // On a two-point axis the offsets -1 and +1 wrap to the same position.
    let g = vec![(-1, 0, 0), (1, 0, 0)];
    assert!(GridIndexMap::new(&g, [2, 4, 4]).is_none());
}
