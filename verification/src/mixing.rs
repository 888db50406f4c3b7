//! Density-mixing bookkeeping: the bounded iteration history and the
//! decision which mixing formula a step uses.
//!
//! The extrapolation itself solves a small dense linear system over grid
//! data and is numerical; what is verified here is the part a wrong line of
//! code would silently corrupt: the history is a bounded first-in-first-out
//! sequence of snapshots, and the step never fails — whenever the
//! extrapolation system is singular or its coefficients explode, the step
//! discards the history and falls back to plain linear mixing.

use vstd::prelude::*;

verus! {

/// Bounded first-in-first-out history of mixing snapshots.  When a push
/// exceeds the bound, the oldest snapshot is evicted first.
pub struct MixerHistory<T> {
    bound: usize,
    items: Vec<T>,
}

impl<T> MixerHistory<T> {
    /// Maximum number of snapshots kept.
    pub closed spec fn bound(self) -> int {
        self.bound as int
    }

    /// The kept snapshots, oldest first.
    pub closed spec fn history(self) -> Seq<T> {
        self.items@
    }

    /// The history never holds more than its bound.
    pub closed spec fn wf(self) -> bool {
        self.items@.len() <= self.bound && self.bound >= 1
    }

    /// An empty history with room for `bound` snapshots.
    pub fn new(bound: usize) -> (r: MixerHistory<T>)
        requires
            bound >= 1,
        ensures
            r.wf(),
            r.bound() == bound,
            r.history() == Seq::<T>::empty(),
    {
        MixerHistory { bound, items: Vec::new() }
    }

    /// Number of snapshots currently kept.
    pub fn len(&self) -> (r: usize)
        ensures
            r == self.history().len(),
    {
        self.items.len()
    }

    /// Appends a snapshot, evicting the oldest one when the history is full.
    pub fn push(&mut self, snapshot: T)
        requires
            old(self).wf(),
        ensures
            final(self).wf(),
            final(self).bound() == old(self).bound(),
            final(self).history() == if old(self).history().len() < old(self).bound() {
                old(self).history().push(snapshot)
            } else {
                old(self).history().drop_first().push(snapshot)
            },
    {
        if self.items.len() >= self.bound {
            self.items.remove(0);
            proof {
                assert(self.items@ =~= old(self).items@.drop_first());
            }
        }
        self.items.push(snapshot);
    }

    /// The snapshot at position `i`, oldest first.
    pub fn get(&self, i: usize) -> (r: &T)
        requires
            i < self.history().len(),
        ensures
            *r == self.history()[i as int],
    {
        &self.items[i]
    }

    /// Discards every snapshot; the bound is kept.
    pub fn clear(&mut self)
        ensures
            final(self).wf() == (old(self).bound() >= 1),
            final(self).bound() == old(self).bound(),
            final(self).history() == Seq::<T>::empty(),
    {
        self.items.clear();
    }
}

/// The formula one mixing step uses, and what happens to the history.
#[derive(Debug, Clone, Copy, PartialEq, Eq, Structural)]
pub enum MixPlan {
    /// Plain linear mixing `next = input + beta * residual`, because the
    /// history is too short to extrapolate from; history kept.
    Linear,
    /// Linear mixing after discarding the whole history, the recovery from
    /// numerical instability: a singular extrapolation system, or solved
    /// coefficients exploding in magnitude.
    LinearAfterReset,
    /// The extrapolated density from the solved coefficient system.
    Extrapolate,
}

/// Which plan a mixing step follows, given how many snapshots the history
/// holds after the current pair was recorded, whether the regularized
/// extrapolation system could not be solved, and whether a solved
/// coefficient exceeded the trust bound in magnitude.
pub open spec fn spec_mix_plan(
    history_len: int,
    solve_failed: bool,
    coeff_exploded: bool,
) -> MixPlan {
    if history_len <= 1 {
        MixPlan::Linear
    } else if solve_failed || coeff_exploded {
        MixPlan::LinearAfterReset
    } else {
        MixPlan::Extrapolate
    }
}

/// Decides the mixing formula of one step.  With at most one snapshot there
/// is nothing to extrapolate from; numerical instability — a singular
/// system, or coefficients exploding in magnitude — discards the history
/// and falls back to linear mixing; only a trustworthy solved system is
/// extrapolated.
pub fn mix_plan(history_len: usize, solve_failed: bool, coeff_exploded: bool) -> (r: MixPlan)
    ensures
        r == spec_mix_plan(history_len as int, solve_failed, coeff_exploded),
{
    if history_len <= 1 {
        MixPlan::Linear
    } else if solve_failed || coeff_exploded {
        MixPlan::LinearAfterReset
    } else {
        MixPlan::Extrapolate
    }
}

/// The mixer cannot fail: whatever the solver reported, every plan is one
/// of the three defined steps, and numerical instability — a singular
/// extrapolation system or exploding coefficients — always yields the
/// linear-mixing fallback with the history discarded: never an extrapolated
/// step and never an error.
pub proof fn lemma_instability_falls_back(
    history_len: int,
    solve_failed: bool,
    coeff_exploded: bool,
)
    ensures
        solve_failed || coeff_exploded ==> spec_mix_plan(history_len, solve_failed, coeff_exploded)
            != MixPlan::Extrapolate,
        history_len > 1 && (solve_failed || coeff_exploded) ==> spec_mix_plan(
            history_len,
            solve_failed,
            coeff_exploded,
        ) == MixPlan::LinearAfterReset,
        history_len <= 1 ==> spec_mix_plan(history_len, solve_failed, coeff_exploded)
            == MixPlan::Linear,
{
}

} // verus!
