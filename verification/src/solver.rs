//! Band-solver bookkeeping: the per-band stop decision and the reordering
//! of eigenpairs by a sort permutation.
//!
//! The solver refines one band at a time and returns eigenvalues and
//! eigenvectors as index-aligned parallel sequences that are unsorted by
//! construction, so the driver must sort both by eigenvalue before
//! applying occupations.  The residual norms and the numeric comparison
//! producing the sort order are computed outside the verified core;
//! verified here is when a band's refinement stops and with which status,
//! that a claimed sort order really is a permutation, and that applying
//! one and the same permutation to both sequences reorders each exactly
//! and keeps them index-aligned.

use vstd::prelude::*;

verus! {

use vstd::pervasive::VecAdditionalExecFns;
use crate::fft_map::{all_distinct_below, distinct_seq};

/// Outcome of one band iteration.
#[derive(Debug, Clone, Copy, PartialEq, Eq, Structural)]
pub enum BandStatus {
    /// The residual norm fell below tolerance; the iterate is accepted.
    Converged,
    /// The iteration budget is exhausted; the last iterate is accepted
    /// anyway, degrading accuracy rather than aborting.
    MaxIterReached,
    /// Neither holds; the solver takes another preconditioned descent step.
    Running,
}

/// Status after the band iteration numbered `iter` (counted from zero) out
/// of a budget of `max_iter`, given this iteration's residual verdict.
pub open spec fn spec_band_status(iter: int, max_iter: int, residual_below_tol: bool) -> BandStatus {
    if residual_below_tol {
        BandStatus::Converged
    } else if iter + 1 >= max_iter {
        BandStatus::MaxIterReached
    } else {
        BandStatus::Running
    }
}

/// Decides whether one band's refinement stops after this iteration.  A
/// residual below tolerance accepts the iterate; an exhausted budget
/// accepts the last iterate anyway — a reported condition, not an error;
/// otherwise another descent step follows.
pub fn band_status(iter: usize, max_iter: usize, residual_below_tol: bool) -> (r: BandStatus)
    requires
        iter < max_iter,
    ensures
        r == spec_band_status(iter as int, max_iter as int, residual_below_tol),
{
    if residual_below_tol {
        BandStatus::Converged
    } else if iter + 1 >= max_iter {
        BandStatus::MaxIterReached
    } else {
        BandStatus::Running
    }
}

/// Each band's refinement always terminates with a defined status: by its
/// budget at the latest, and a convergence verdict is only ever issued when
/// the residual is below tolerance.
pub proof fn lemma_band_refinement_terminates(iter: int, max_iter: int, residual_below_tol: bool)
    ensures
        iter + 1 >= max_iter ==> spec_band_status(iter, max_iter, residual_below_tol)
            != BandStatus::Running,
        spec_band_status(iter, max_iter, residual_below_tol) == BandStatus::Converged
            ==> residual_below_tol,
{
}

/// `order` is a permutation of `0 .. n`: it has length `n`, every entry is
/// below `n`, and no entry repeats.
pub open spec fn is_permutation_of(order: Seq<usize>, n: int) -> bool {
    &&& order.len() == n
    &&& forall|i: int| 0 <= i < n ==> order[i] < n
    &&& distinct_seq(order)
}

/// Checks at run time that a claimed sort order is a permutation of
/// `0 .. n`, the precondition for reordering eigenpairs by it.
pub fn check_permutation(order: &Vec<usize>, n: usize) -> (r: bool)
    ensures
        r == is_permutation_of(order@, n as int),
{
    if order.len() != n {
        return false;
    }
    let mut i: usize = 0;
    while i < n
        invariant
            order@.len() == n,
            i <= n,
            forall|k: int| 0 <= k < i ==> #[trigger] order@[k] < n,
        decreases n - i,
    {
        if order[i] >= n {
            return false;
        }
        i = i + 1;
    }
    all_distinct_below(order, n)
}

/// Reorders `items` by the permutation `order`: entry `i` of the result is
/// the original entry `order[i]`.  Applying the same permutation to the
/// eigenvalue and the eigenvector sequence keeps the two index-aligned.
pub fn apply_permutation<T>(items: Vec<T>, order: &Vec<usize>) -> (r: Vec<T>)
    requires
        is_permutation_of(order@, items@.len() as int),
    ensures
        r@.len() == items@.len(),
        forall|i: int| 0 <= i < r@.len() ==> #[trigger] r@[i] == items@[order@[i] as int],
{
    let ghost orig = items@;
    let n: usize = items.len();
    let mut rest: Vec<T> = items;
    let mut slots: Vec<Option<T>> = Vec::new();
    while rest.len() > 0
        invariant
            orig.len() == n,
            slots@.len() + rest@.len() == n,
            rest@ == orig.subrange(slots@.len() as int, n as int),
            forall|p: int| 0 <= p < slots@.len() ==> #[trigger] slots@[p] == Some(orig[p]),
        decreases rest@.len(),
    {
        let ghost k = slots@.len() as int;
        let ghost rest_before = rest@;
        let x: T = rest.remove(0);
        slots.push(Some(x));
        proof {
            rest_before.remove_ensures(0);
            assert(rest@ =~= orig.subrange(k + 1, n as int));
        }
    }
    let mut out: Vec<T> = Vec::new();
    let mut i: usize = 0;
    while i < n
        invariant
            orig.len() == n,
            is_permutation_of(order@, n as int),
            slots@.len() == n,
            i <= n,
            out@.len() == i,
            forall|j: int| 0 <= j < i ==> #[trigger] out@[j] == orig[order@[j] as int],
            forall|p: int|
                0 <= p < n && !(exists|j: int| 0 <= j < i && order@[j] == p)
                    ==> (#[trigger] slots@[p]) == Some(orig[p]),
        decreases n - i,
    {
        let pos: usize = order[i];
        proof {
            assert forall|j: int| 0 <= j < i implies order@[j] != pos by {
                assert(order@[j] != order@[i as int]);
            }
            assert(slots@[pos as int] == Some(orig[pos as int]));
        }
        let mut taken: Option<T> = None;
        slots.set_and_swap(pos, &mut taken);
        out.push(taken.unwrap());
        i = i + 1;
    }
    out
}

} // verus!
