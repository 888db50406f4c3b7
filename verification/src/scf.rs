//! Self-consistent-field control flow: the closed-shell occupation model
//! and the convergence decision of one iteration.
//!
//! The energies and densities an iteration compares are numerical; the
//! verified part is the control logic acting on the comparison verdicts:
//! how many bands are occupied, which occupation each band carries, and
//! when the loop stops and with which status.

use vstd::prelude::*;

verus! {

/// Outcome of one self-consistent-field iteration.
#[derive(Debug, Clone, Copy, PartialEq, Eq, Structural)]
pub enum ScfStatus {
    /// Both the energy change and the density change fell below their
    /// tolerances; the loop stops.
    Converged,
    /// The iteration ceiling was reached without convergence.  Not fatal:
    /// the last computed state is the result.
    MaxIterReached,
    /// Neither stop condition holds; the loop continues.
    Running,
}

/// Number of occupied bands in the closed-shell model: each occupied band
/// carries two electrons, so `ceil(electrons / 2)` bands are occupied.
pub fn occupied_band_count(n_electrons: u64) -> (r: u64)
    requires
        n_electrons < u64::MAX,
    ensures
        r == (n_electrons + 1) / 2,
        2 * r >= n_electrons,
        n_electrons > 0 ==> 2 * (r - 1) < n_electrons,
{
    (n_electrons + 1) / 2
}

/// The occupation of each of `n_bands` bands, lowest first: the first
/// `n_occupied` bands carry two electrons, the rest are empty.
pub fn occupation_numbers(n_bands: usize, n_occupied: usize) -> (r: Vec<u64>)
    ensures
        r@.len() == n_bands,
        forall|i: int|
            0 <= i < n_bands ==> #[trigger] r@[i] == if i < n_occupied {
                2u64
            } else {
                0u64
            },
{
    let mut out: Vec<u64> = Vec::new();
    let mut i: usize = 0;
    while i < n_bands
        invariant
            i <= n_bands,
            out@.len() == i,
            forall|k: int|
                0 <= k < i ==> #[trigger] out@[k] == if k < n_occupied {
                    2u64
                } else {
                    0u64
                },
        decreases n_bands - i,
    {
        if i < n_occupied {
            out.push(2);
        } else {
            out.push(0);
        }
        i = i + 1;
    }
    out
}

/// Status of the loop after iteration `iter` (counted from one), given the
/// ceiling and the two tolerance verdicts of this iteration.
pub open spec fn spec_scf_status(
    iter: int,
    max_iter: int,
    energy_below_tol: bool,
    density_below_tol: bool,
) -> ScfStatus {
    if iter > 1 && energy_below_tol && density_below_tol {
        ScfStatus::Converged
    } else if iter >= max_iter {
        ScfStatus::MaxIterReached
    } else {
        ScfStatus::Running
    }
}

/// Decides whether the self-consistency loop stops after this iteration.
/// Convergence needs both metrics below tolerance and at least two
/// completed iterations (the first iteration has no meaningful energy
/// difference); otherwise the loop runs until its ceiling, which is a
/// reported condition and not an error.
pub fn scf_status(
    iter: usize,
    max_iter: usize,
    energy_below_tol: bool,
    density_below_tol: bool,
) -> (r: ScfStatus)
    ensures
        r == spec_scf_status(iter as int, max_iter as int, energy_below_tol, density_below_tol),
{
    if iter > 1 && energy_below_tol && density_below_tol {
        ScfStatus::Converged
    } else if iter >= max_iter {
        ScfStatus::MaxIterReached
    } else {
        ScfStatus::Running
    }
}

/// The loop always terminates with a defined status: by its ceiling at the
/// latest, and a convergence verdict is only ever issued when both metrics
/// are below tolerance.
pub proof fn lemma_scf_loop_terminates(iter: int, max_iter: int, e_ok: bool, d_ok: bool)
    ensures
        iter >= max_iter ==> spec_scf_status(iter, max_iter, e_ok, d_ok) != ScfStatus::Running,
        spec_scf_status(iter, max_iter, e_ok, d_ok) == ScfStatus::Converged ==> e_ok && d_ok
            && iter > 1,
{
}

/// Total electron count carried by a sequence of band occupations.
pub open spec fn occupation_total(occ: Seq<u64>) -> int
    decreases occ.len(),
{
    if occ.len() == 0 {
        0
    } else {
        occupation_total(occ.drop_last()) + occ.last()
    }
}

/// Charge accounting of the closed-shell occupation model: when all
/// occupied bands fit into the solved set, the occupations carry exactly
/// two electrons per occupied band — the target charge every density
/// update is rescaled to.
pub proof fn lemma_occupation_charge(occ: Seq<u64>, n_occupied: int)
    requires
        0 <= n_occupied <= occ.len(),
        forall|i: int|
            0 <= i < occ.len() ==> #[trigger] occ[i] == if i < n_occupied {
                2u64
            } else {
                0u64
            },
    ensures
        occupation_total(occ) == 2 * n_occupied,
    decreases occ.len(),
{
    if occ.len() == 0 {
    } else if n_occupied == occ.len() {
        lemma_occupation_charge(occ.drop_last(), n_occupied - 1);
    } else {
        lemma_occupation_charge(occ.drop_last(), n_occupied);
    }
}

} // verus!
