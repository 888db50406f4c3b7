use bravie::kpoints::monkhorst_pack_numerators;

#[test]
fn unshifted_two_point_grid() {
    let nums = monkhorst_pack_numerators([2, 2, 2], [false, false, false]);
    assert_eq!(nums.len(), 8);
    // Denominator per axis is 2 * n = 4: coordinates 0 and 1/2 -> -1/2.
    assert_eq!(nums[0], (0, 0, 0));
    assert_eq!(nums[7], (-2, -2, -2));
    assert_eq!(nums[1], (0, 0, -2));
    assert_eq!(nums[2], (0, -2, 0));
    assert_eq!(nums[4], (-2, 0, 0));
}

#[test]
fn shifted_grid_matches_float_formula() {
    let grid = [2usize, 3, 4];
    let shift = [true, false, true];
    let nums = monkhorst_pack_numerators(grid, shift);
    assert_eq!(nums.len(), 24);

    let mut idx = 0usize;
    for i in 0..grid[0] {
        for j in 0..grid[1] {
            for k in 0..grid[2] {
                let float_coord = |step: usize, s: bool, n: usize| -> f64 {
                    let x = (step as f64 + if s { 0.5 } else { 0.0 }) / n as f64;
                    if x >= 0.5 { x - 1.0 } else { x }
                };
                let expect = [
                    float_coord(i, shift[0], grid[0]),
                    float_coord(j, shift[1], grid[1]),
                    float_coord(k, shift[2], grid[2]),
                ];
                let (a, b, c) = nums[idx];
                let got = [
                    a as f64 / (2.0 * grid[0] as f64),
                    b as f64 / (2.0 * grid[1] as f64),
                    c as f64 / (2.0 * grid[2] as f64),
                ];
                for axis in 0..3 {
                    assert!((got[axis] - expect[axis]).abs() < 1e-15);
                }
                idx += 1;
            }
        }
    }
}

#[test]
fn single_point_grid_is_zone_center() {
    let nums = monkhorst_pack_numerators([1, 1, 1], [false, false, false]);
    assert_eq!(nums, vec![(0, 0, 0)]);
}

#[test]
fn coordinates_stay_in_first_zone() {
    let nums = monkhorst_pack_numerators([5, 4, 3], [true, true, false]);
    for &(a, b, c) in &nums {
        // numerator / (2 n) must lie in [-1/2, 1/2): -n <= numerator < n.
        assert!(-5 <= a && a < 5);
        assert!(-4 <= b && b < 4);
        assert!(-3 <= c && c < 3);
    }
}
