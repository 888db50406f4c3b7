//! Monkhorst-Pack k-point grids, computed exactly.
//!
//! A uniform grid point along an axis sampled `n` times with an optional
//! half-step shift has the fractional coordinate `(2 i + s) / (2 n)` with
//! `s` zero or one, folded into `[-1/2, 1/2)` by subtracting one whenever
//! the coordinate reaches one half.  Those coordinates are rationals with
//! denominator `2 n`, so this module enumerates their numerators exactly;
//! the division into floating-point coordinates happens outside the
//! verified core.

use vstd::prelude::*;

verus! {

use vstd::arithmetic::div_mod::lemma_fundamental_div_mod_converse;

/// Numerator over `2 * n` of the `idx`-th sample of an axis sampled `n`
/// times, shifted half a step when `shift` is set, folded into the first
/// zone: the coordinate is `mp_numerator(idx, shift, n) / (2 * n)`, always
/// in `[-1/2, 1/2)`.
pub open spec fn mp_numerator(idx: int, shift: bool, n: int) -> int {
    let raw = 2 * idx + if shift {
        1int
    } else {
        0int
    };
    if raw >= n {
        raw - 2 * n
    } else {
        raw
    }
}

/// The flat rank `(i * n2 + j) * n3 + k` decomposes uniquely back into its
/// three nested loop counters.
proof fn lemma_rank_decomposition(i: int, j: int, k: int, n1: int, n2: int, n3: int)
    requires
        0 <= i < n1,
        0 <= j < n2,
        0 <= k < n3,
    ensures
        ((i * n2 + j) * n3 + k) / n3 / n2 == i,
        ((i * n2 + j) * n3 + k) / n3 % n2 == j,
        ((i * n2 + j) * n3 + k) % n3 == k,
{
    let rank = (i * n2 + j) * n3 + k;
    lemma_fundamental_div_mod_converse(rank, n3, i * n2 + j, k);
    lemma_fundamental_div_mod_converse(i * n2 + j, n2, i, j);
}

/// Enumerates the coordinate numerators of a Monkhorst-Pack grid with
/// `grid[0] * grid[1] * grid[2]` points in nested ascending order, the
/// first axis slowest.  Entry `idx` holds the folded numerators of the
/// sample `(idx / n3 / n2, idx / n3 % n2, idx % n3)`; each coordinate is
/// the numerator divided by twice the axis sample count, and every point
/// carries the uniform integration weight of one over the point count.
pub fn monkhorst_pack_numerators(grid: [usize; 3], shift_half: [bool; 3]) -> (r: Vec<
    (i64, i64, i64),
>)
    requires
        1 <= grid[0] <= 1000000,
        1 <= grid[1] <= 1000000,
        1 <= grid[2] <= 1000000,
        grid[0] * grid[1] * grid[2] <= usize::MAX,
    ensures
        r@.len() == grid[0] * grid[1] * grid[2],
        forall|idx: int|
            0 <= idx < r@.len() ==> {
                let t = #[trigger] r@[idx];
                &&& t.0 as int == mp_numerator(idx / (grid[2] as int) / (grid[1] as int), shift_half[0], grid[0] as int)
                &&& t.1 as int == mp_numerator(idx / (grid[2] as int) % (grid[1] as int), shift_half[1], grid[1] as int)
                &&& t.2 as int == mp_numerator(idx % (grid[2] as int), shift_half[2], grid[2] as int)
            },
{
    let n1: usize = grid[0];
    let n2: usize = grid[1];
    let n3: usize = grid[2];
    let mut out: Vec<(i64, i64, i64)> = Vec::new();
    let mut i: usize = 0;
    proof {
        assert(i * n2 * n3 == 0) by (nonlinear_arith)
            requires
                i == 0,
        ;
    }
    while i < n1
        invariant
            1 <= n1 <= 1000000,
            1 <= n2 <= 1000000,
            1 <= n3 <= 1000000,
            n1 == grid[0],
            n2 == grid[1],
            n3 == grid[2],
            i <= n1,
            out@.len() == i * n2 * n3,
            forall|idx: int|
                0 <= idx < out@.len() ==> {
                    let t = #[trigger] out@[idx];
                    &&& t.0 as int == mp_numerator(idx / (n3 as int) / (n2 as int), shift_half[0], n1 as int)
                    &&& t.1 as int == mp_numerator(idx / (n3 as int) % (n2 as int), shift_half[1], n2 as int)
                    &&& t.2 as int == mp_numerator(idx % (n3 as int), shift_half[2], n3 as int)
                },
        decreases n1 - i,
    {
        let num_i: i64 = fold_numerator(i, shift_half[0], n1);
        let mut j: usize = 0;
        proof {
            assert(j * n3 == 0) by (nonlinear_arith)
                requires
                    j == 0,
            ;
        }
        while j < n2
            invariant
                1 <= n1 <= 1000000,
                1 <= n2 <= 1000000,
                1 <= n3 <= 1000000,
                n1 == grid[0],
                n2 == grid[1],
                n3 == grid[2],
                i < n1,
                j <= n2,
                num_i as int == mp_numerator(i as int, shift_half[0], n1 as int),
                out@.len() == i * n2 * n3 + j * n3,
                forall|idx: int|
                    0 <= idx < out@.len() ==> {
                        let t = #[trigger] out@[idx];
                        &&& t.0 as int == mp_numerator(idx / (n3 as int) / (n2 as int), shift_half[0], n1 as int)
                        &&& t.1 as int == mp_numerator(idx / (n3 as int) % (n2 as int), shift_half[1], n2 as int)
                        &&& t.2 as int == mp_numerator(idx % (n3 as int), shift_half[2], n3 as int)
                    },
            decreases n2 - j,
        {
            let num_j: i64 = fold_numerator(j, shift_half[1], n2);
            let mut k: usize = 0;
            while k < n3
                invariant
                    1 <= n1 <= 1000000,
                    1 <= n2 <= 1000000,
                    1 <= n3 <= 1000000,
                    n1 == grid[0],
                    n2 == grid[1],
                    n3 == grid[2],
                    i < n1,
                    j < n2,
                    k <= n3,
                    num_i as int == mp_numerator(i as int, shift_half[0], n1 as int),
                    num_j as int == mp_numerator(j as int, shift_half[1], n2 as int),
                    out@.len() == i * n2 * n3 + j * n3 + k,
                    forall|idx: int|
                        0 <= idx < out@.len() ==> {
                            let t = #[trigger] out@[idx];
                            &&& t.0 as int == mp_numerator(idx / (n3 as int) / (n2 as int), shift_half[0], n1 as int)
                            &&& t.1 as int == mp_numerator(idx / (n3 as int) % (n2 as int), shift_half[1], n2 as int)
                            &&& t.2 as int == mp_numerator(idx % (n3 as int), shift_half[2], n3 as int)
                        },
                decreases n3 - k,
            {
                let num_k: i64 = fold_numerator(k, shift_half[2], n3);
                proof {
                    assert((i * n2 + j) * n3 == i * n2 * n3 + j * n3) by (nonlinear_arith);
                    lemma_rank_decomposition(
                        i as int,
                        j as int,
                        k as int,
                        n1 as int,
                        n2 as int,
                        n3 as int,
                    );
                }
                out.push((num_i, num_j, num_k));
                k = k + 1;
            }
            proof {
                assert(j * n3 + n3 == (j + 1) * n3) by (nonlinear_arith);
            }
            j = j + 1;
        }
        proof {
            assert(i * n2 * n3 + n2 * n3 == (i + 1) * n2 * n3) by (nonlinear_arith);
        }
        i = i + 1;
    }
    out
}

/// Folded numerator of one axis sample, over denominator `2 * n`.
fn fold_numerator(idx: usize, shift: bool, n: usize) -> (r: i64)
    requires
        1 <= n <= 1000000,
        idx < n,
    ensures
        r as int == mp_numerator(idx as int, shift, n as int),
{
    let raw: i64 = 2 * (idx as i64) + if shift {
        1
    } else {
        0
    };
    if raw >= n as i64 {
        raw - 2 * (n as i64)
    } else {
        raw
    }
}

} // verus!
