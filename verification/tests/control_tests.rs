use bravie::mixing::{mix_plan, MixPlan, MixerHistory};
use bravie::scf::{occupation_numbers, occupied_band_count, scf_status, ScfStatus};
use bravie::simulation::{model_for_relativistic_flag, validate_config, HamiltonianModel, SimulationError};
use bravie::solver::{apply_permutation, band_status, check_permutation, BandStatus};

#[test]
fn history_is_bounded_fifo() {
    let mut h: MixerHistory<i32> = MixerHistory::new(2);
    assert_eq!(h.len(), 0);
    h.push(1);
    h.push(2);
    assert_eq!(h.len(), 2);
    assert_eq!(*h.get(0), 1);
    assert_eq!(*h.get(1), 2);
    h.push(3);
    assert_eq!(h.len(), 2);
    assert_eq!(*h.get(0), 2);
    assert_eq!(*h.get(1), 3);
    h.clear();
    assert_eq!(h.len(), 0);
}

#[test]
fn singular_history_falls_back_to_linear() {
    // Two identical residual snapshots make the extrapolation system
    // singular; the step must not fail and must fall back to linear
    // mixing, discarding the history.
    let mut h: MixerHistory<Vec<f64>> = MixerHistory::new(5);
    let residual = vec![0.25f64, -0.5, 0.125];
    h.push(residual.clone());
    h.push(residual.clone());
    let solve_failed = true;
    let plan = mix_plan(h.len(), solve_failed, false);
    assert_eq!(plan, MixPlan::LinearAfterReset);
    h.clear();
    assert_eq!(h.len(), 0);
}

#[test]
fn history_of_one_always_evicts() {
    let mut h: MixerHistory<u8> = MixerHistory::new(1);
    h.push(10);
    h.push(20);
    h.push(30);
    assert_eq!(h.len(), 1);
    assert_eq!(*h.get(0), 30);
}

#[test]
fn identity_permutation_keeps_order() {
    let items = vec!["a", "b", "c"];
    let order = vec![0usize, 1, 2];
    assert_eq!(apply_permutation(items.clone(), &order), items);
}

#[test]
fn mixing_plan_cases() {
    assert_eq!(mix_plan(0, false, false), MixPlan::Linear);
    assert_eq!(mix_plan(1, false, false), MixPlan::Linear);
    assert_eq!(mix_plan(2, false, false), MixPlan::Extrapolate);
    assert_eq!(mix_plan(2, false, true), MixPlan::LinearAfterReset);
    assert_eq!(mix_plan(2, true, false), MixPlan::LinearAfterReset);
    assert_eq!(mix_plan(5, true, true), MixPlan::LinearAfterReset);
    assert_eq!(mix_plan(1, true, false), MixPlan::Linear);
}

#[test]
fn exploded_coefficients_discard_history() {
    // A solved system whose coefficients exceed the trust bound is the
    // same numerical-instability recovery as a singular system: the
    // history is discarded and the step is plain linear mixing.
    let mut h: MixerHistory<Vec<f64>> = MixerHistory::new(5);
    h.push(vec![1.0f64, 0.0]);
    h.push(vec![0.0f64, 1.0]);
    let coeff_exploded = true;
    let plan = mix_plan(h.len(), false, coeff_exploded);
    assert_eq!(plan, MixPlan::LinearAfterReset);
    h.clear();
    assert_eq!(h.len(), 0);
}

#[test]
fn occupied_bands_closed_shell() {
    assert_eq!(occupied_band_count(0), 0);
    assert_eq!(occupied_band_count(1), 1);
    assert_eq!(occupied_band_count(8), 4); // diamond-structure silicon cell
    assert_eq!(occupied_band_count(9), 5);
}

#[test]
fn occupations_two_per_band() {
    let occ = occupation_numbers(8, 4);
    assert_eq!(occ, vec![2, 2, 2, 2, 0, 0, 0, 0]);
    let total: u64 = occ.iter().sum();
    assert_eq!(total, 8);
    assert_eq!(occupation_numbers(0, 0), Vec::<u64>::new());
}

#[test]
fn scf_stop_conditions() {
    assert_eq!(scf_status(1, 100, true, true), ScfStatus::Running);
    assert_eq!(scf_status(2, 100, true, true), ScfStatus::Converged);
    assert_eq!(scf_status(5, 100, true, false), ScfStatus::Running);
    assert_eq!(scf_status(5, 100, false, true), ScfStatus::Running);
    assert_eq!(scf_status(100, 100, false, false), ScfStatus::MaxIterReached);
    assert_eq!(scf_status(100, 100, true, true), ScfStatus::Converged);
    assert_eq!(scf_status(1, 1, false, false), ScfStatus::MaxIterReached);
}

#[test]
fn band_refinement_stop_conditions() {
    assert_eq!(band_status(0, 200, true), BandStatus::Converged);
    assert_eq!(band_status(199, 200, true), BandStatus::Converged);
    assert_eq!(band_status(0, 200, false), BandStatus::Running);
    assert_eq!(band_status(198, 200, false), BandStatus::Running);
    assert_eq!(band_status(199, 200, false), BandStatus::MaxIterReached);
    assert_eq!(band_status(0, 1, false), BandStatus::MaxIterReached);
}

#[test]
fn configuration_fail_fast() {
    assert_eq!(validate_config(false, true, 1), Err(SimulationError::MissingStructure));
    assert_eq!(validate_config(true, false, 1), Err(SimulationError::MissingEcut));
    assert_eq!(validate_config(true, true, 0), Err(SimulationError::InvalidKGrid));
    assert_eq!(validate_config(true, true, 1), Ok(()));
    assert_eq!(validate_config(false, false, 0), Err(SimulationError::MissingStructure));
}

#[test]
fn model_selection() {
    assert_eq!(model_for_relativistic_flag(false), HamiltonianModel::Schrodinger);
    assert_eq!(model_for_relativistic_flag(true), HamiltonianModel::DiracScalarRelativistic);
}

#[test]
fn eigenpair_sort_keeps_alignment() {
    let eigenvalues = vec![3.0f64, 1.0, 2.0];
    let eigenvectors = vec![vec![3.0f64, 30.0], vec![1.0, 10.0], vec![2.0, 20.0]];

    // Sort order by eigenvalue, computed outside the verified core.
    let mut order: Vec<usize> = (0..eigenvalues.len()).collect();
    order.sort_by(|&a, &b| eigenvalues[a].partial_cmp(&eigenvalues[b]).unwrap());
    assert!(check_permutation(&order, eigenvalues.len()));

    let sorted_values = apply_permutation(eigenvalues, &order);
    let sorted_vectors = apply_permutation(eigenvectors, &order);
    assert_eq!(sorted_values, vec![1.0, 2.0, 3.0]);
    assert_eq!(sorted_vectors[0], vec![1.0, 10.0]);
    assert_eq!(sorted_vectors[1], vec![2.0, 20.0]);
    assert_eq!(sorted_vectors[2], vec![3.0, 30.0]);
}

#[test]
fn permutation_check_rejects_bad_orders() {
    assert!(!check_permutation(&vec![0, 1], 3));
    assert!(!check_permutation(&vec![0, 1, 3], 3));
    assert!(!check_permutation(&vec![0, 1, 1], 3));
    assert!(check_permutation(&vec![2, 0, 1], 3));
    assert!(check_permutation(&vec![], 0));
}
