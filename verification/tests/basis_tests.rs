use bravie::basis::{filter_by_flags, g_vector_box, is_smooth_number, next_fft_size, optimal_fft_grid};

#[test]
fn smooth_number_recognition() {
    assert!(is_smooth_number(1));
    assert!(is_smooth_number(2));
    assert!(is_smooth_number(3));
    assert!(is_smooth_number(5));
    assert!(is_smooth_number(7));
    assert!(is_smooth_number(8));
    assert!(is_smooth_number(12));
    assert!(is_smooth_number(210)); // 2 * 3 * 5 * 7
    assert!(is_smooth_number(2u32.pow(10) as usize * 3 * 49));
    assert!(!is_smooth_number(0));
    assert!(!is_smooth_number(11));
    assert!(!is_smooth_number(13));
    assert!(!is_smooth_number(22)); // 2 * 11
    assert!(!is_smooth_number(143)); // 11 * 13
}

#[test]
fn next_size_rounds_up_to_smooth() {
    assert_eq!(next_fft_size(0), 1);
    assert_eq!(next_fft_size(1), 1);
    assert_eq!(next_fft_size(11), 12);
    assert_eq!(next_fft_size(12), 12);
    assert_eq!(next_fft_size(13), 14);
    assert_eq!(next_fft_size(17), 18);
    assert_eq!(next_fft_size(121), 125);
    assert_eq!(next_fft_size(101), 105); // 3 * 5 * 7
}

#[test]
fn grid_dimensions_per_axis() {
    assert_eq!(optimal_fft_grid([11, 13, 17]), [12, 14, 18]);
    assert_eq!(optimal_fft_grid([1, 1, 1]), [1, 1, 1]);
}

#[test]
fn box_enumeration_order() {
    let b = g_vector_box(1, 1, 1);
    assert_eq!(b.len(), 27);
    assert_eq!(b[0], (-1, -1, -1));
    assert_eq!(b[1], (-1, -1, 0));
    assert_eq!(b[2], (-1, -1, 1));
    assert_eq!(b[3], (-1, 0, -1));
    assert_eq!(b[13], (0, 0, 0));
    assert_eq!(b[26], (1, 1, 1));
}

#[test]
fn box_enumeration_anisotropic() {
    let b = g_vector_box(2, 0, 1);
    assert_eq!(b.len(), 15);
    assert_eq!(b[0], (-2, 0, -1));
    assert_eq!(b[1], (-2, 0, 0));
    assert_eq!(b[2], (-2, 0, 1));
    assert_eq!(b[3], (-1, 0, -1));
    assert_eq!(b[14], (2, 0, 1));
}

#[test]
fn filter_keeps_order_and_flags() {
    let items = g_vector_box(1, 0, 0); // [(-1,0,0), (0,0,0), (1,0,0)]
    let keep = vec![true, false, true];
    let kept = filter_by_flags(&items, &keep);
    assert_eq!(kept, vec![(-1, 0, 0), (1, 0, 0)]);

    let none = filter_by_flags(&items, &vec![false, false, false]);
    assert!(none.is_empty());

    let all = filter_by_flags(&items, &vec![true, true, true]);
    assert_eq!(all, items);
}

#[test]
fn cutoff_filter_scenario() {
    // One-dimensional cell with reciprocal vector length 1: keep |g|^2 <= 2.
    let cands = g_vector_box(2, 0, 0);
    let ecut = 2.0f64;
    let keep: Vec<bool> = cands
        .iter()
        .map(|&(gx, gy, gz)| {
            let g2 = (gx * gx + gy * gy + gz * gz) as f64;
            g2 <= ecut
        })
        .collect();
    let kept = filter_by_flags(&cands, &keep);
    assert_eq!(kept, vec![(-1, 0, 0), (0, 0, 0), (1, 0, 0)]);
}
