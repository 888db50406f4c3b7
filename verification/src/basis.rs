//! Plane-wave basis bookkeeping: transform-friendly grid sizing and the
//! deterministic enumeration of candidate reciprocal-lattice offsets.
//!
//! The kinetic-energy cutoff test itself is numerical and happens outside the
//! verified core; what is proved here is everything discrete about the basis:
//! which grid sizes are products of small primes, which integer triplets the
//! search box contains and in what order, and how a selection of those
//! triplets is extracted without disturbing the enumeration order.

use vstd::prelude::*;

verus! {

use vstd::arithmetic::div_mod::{lemma_fundamental_div_mod, lemma_mod_multiples_basic};

/// A grid axis length is transform-friendly when its prime factorization
/// uses only the primes 2, 3, 5 and 7.
pub open spec fn is_fft_smooth(n: nat) -> bool
    decreases n,
{
    if n == 0 {
        false
    } else if n == 1 {
        true
    } else if n % 2 == 0 {
        is_fft_smooth(n / 2)
    } else if n % 3 == 0 {
        is_fft_smooth(n / 3)
    } else if n % 5 == 0 {
        is_fft_smooth(n / 5)
    } else if n % 7 == 0 {
        is_fft_smooth(n / 7)
    } else {
        false
    }
}

/// If `m` is a multiple of `d` and the quotient `m / d` is a multiple of
/// `p`, then `m` itself is a multiple of `p`.
proof fn lemma_quotient_multiple_transfers(m: int, d: int, p: int)
    requires
        d > 0,
        p > 0,
        m % d == 0,
        (m / d) % p == 0,
    ensures
        m % p == 0,
{
    let q = m / d;
    lemma_fundamental_div_mod(m, d);
    lemma_fundamental_div_mod(q, p);
    assert(m == (d * (q / p)) * p) by (nonlinear_arith)
        requires
            m == d * q + 0,
            q == p * (q / p) + 0,
    ;
    lemma_mod_multiples_basic(d * (q / p), p);
}

/// Dividing out one prime factor `d` cannot introduce a factor `p` that the
/// original number did not have.
proof fn lemma_quotient_keeps_nonfactor(m: int, d: int, p: int)
    requires
        d > 0,
        p > 0,
        m % d == 0,
        m % p != 0,
    ensures
        (m / d) % p != 0,
{
    if (m / d) % p == 0 {
        lemma_quotient_multiple_transfers(m, d, p);
    }
}

/// Decides whether `n` is a product of the primes 2, 3, 5 and 7 only, the
/// sizes for which the dense transforms run efficiently.
pub fn is_smooth_number(n: usize) -> (r: bool)
    ensures
        r == is_fft_smooth(n as nat),
{
    if n == 0 {
        return false;
    }
    let mut m: usize = n;
    while m % 2 == 0
        invariant
            m >= 1,
            is_fft_smooth(n as nat) == is_fft_smooth(m as nat),
        decreases m,
    {
        m = m / 2;
    }
    while m % 3 == 0
        invariant
            m >= 1,
            m % 2 != 0,
            is_fft_smooth(n as nat) == is_fft_smooth(m as nat),
        decreases m,
    {
        proof {
            lemma_quotient_keeps_nonfactor(m as int, 3, 2);
        }
        m = m / 3;
    }
    while m % 5 == 0
        invariant
            m >= 1,
            m % 2 != 0,
            m % 3 != 0,
            is_fft_smooth(n as nat) == is_fft_smooth(m as nat),
        decreases m,
    {
        proof {
            lemma_quotient_keeps_nonfactor(m as int, 5, 2);
            lemma_quotient_keeps_nonfactor(m as int, 5, 3);
        }
        m = m / 5;
    }
    while m % 7 == 0
        invariant
            m >= 1,
            m % 2 != 0,
            m % 3 != 0,
            m % 5 != 0,
            is_fft_smooth(n as nat) == is_fft_smooth(m as nat),
        decreases m,
    {
        proof {
            lemma_quotient_keeps_nonfactor(m as int, 7, 2);
            lemma_quotient_keeps_nonfactor(m as int, 7, 3);
            lemma_quotient_keeps_nonfactor(m as int, 7, 5);
        }
        m = m / 7;
    }
    m == 1
}

/// The smallest transform-friendly size that is at least `n`.
pub fn next_fft_size(n: usize) -> (r: usize)
    requires
        n <= usize::MAX / 2,
    ensures
        is_fft_smooth(r as nat),
        r >= n,
        forall|m: nat| n <= m < r ==> !#[trigger] is_fft_smooth(m),
{
    // A power of two at least as large as `n` bounds the search.
    let mut bound: usize = 1;
    while bound < n
        invariant
            bound >= 1,
            is_fft_smooth(bound as nat),
            n == 0 || bound <= 2 * n,
            n <= usize::MAX / 2,
        decreases 2 * n - bound,
    {
        let doubled: usize = bound * 2;
        assert(is_fft_smooth(doubled as nat)) by {
            assert(doubled % 2 == 0);
            assert(doubled / 2 == bound);
        }
        bound = doubled;
    }
    let mut size: usize = n;
    while !is_smooth_number(size)
        invariant
            n <= size <= bound,
            is_fft_smooth(bound as nat),
            forall|m: nat| n <= m < size ==> !#[trigger] is_fft_smooth(m),
        decreases bound - size,
    {
        size = size + 1;
    }
    size
}

/// Rounds each required axis point count up to the next transform-friendly
/// size, yielding the grid dimensions actually allocated.
pub fn optimal_fft_grid(required: [usize; 3]) -> (dims: [usize; 3])
    requires
        forall|a: int| 0 <= a < 3 ==> required[a] <= usize::MAX / 2,
    ensures
        forall|a: int|
            0 <= a < 3 ==> {
                &&& is_fft_smooth(dims[a] as nat)
                &&& dims[a] >= required[a]
                &&& forall|m: nat| required[a] <= m < dims[a] ==> !#[trigger] is_fft_smooth(m)
            },
{
    let d0: usize = next_fft_size(required[0]);
    let d1: usize = next_fft_size(required[1]);
    let d2: usize = next_fft_size(required[2]);
    [d0, d1, d2]
}

/// Number of integer offsets along one axis of a search box of half-extent `h`.
pub open spec fn box_len(h: int) -> int {
    2 * h + 1
}

/// Rank of the offset `(a, b, c)` in the nested ascending enumeration of the
/// box with half-extents `(hx, hy, hz)`.
pub open spec fn box_position(hx: int, hy: int, hz: int, a: int, b: int, c: int) -> int {
    ((a + hx) * box_len(hy) + (b + hy)) * box_len(hz) + (c + hz)
}

/// The offset lies inside the search box with half-extents `(hx, hy, hz)`.
pub open spec fn in_box(hx: int, hy: int, hz: int, t: (i32, i32, i32)) -> bool {
    -hx <= t.0 <= hx && -hy <= t.1 <= hy && -hz <= t.2 <= hz
}

/// Enumerates every integer offset of the search box with half-extents
/// `(hx, hy, hz)` in nested ascending order: the first component slowest,
/// the third fastest.  Downstream index maps depend on this order being
/// deterministic, so the contract pins the rank of every entry.
pub fn g_vector_box(hx: i32, hy: i32, hz: i32) -> (r: Vec<(i32, i32, i32)>)
    requires
        0 <= hx <= 100000,
        0 <= hy <= 100000,
        0 <= hz <= 100000,
        box_len(hx as int) * box_len(hy as int) * box_len(hz as int) <= usize::MAX,
    ensures
        r@.len() == box_len(hx as int) * box_len(hy as int) * box_len(hz as int),
        forall|idx: int|
            0 <= idx < r@.len() ==> {
                let t = #[trigger] r@[idx];
                in_box(hx as int, hy as int, hz as int, t) && box_position(
                    hx as int,
                    hy as int,
                    hz as int,
                    t.0 as int,
                    t.1 as int,
                    t.2 as int,
                ) == idx
            },
{
    let ghost bly: int = box_len(hy as int);
    let ghost blz: int = box_len(hz as int);
    let mut out: Vec<(i32, i32, i32)> = Vec::new();
    let mut i: i32 = -hx;
    proof {
        assert((i + hx) * bly * blz == 0) by (nonlinear_arith)
            requires
                i + hx == 0,
        ;
    }
    while i <= hx
        invariant
            0 <= hx <= 100000,
            0 <= hy <= 100000,
            0 <= hz <= 100000,
            bly == box_len(hy as int),
            blz == box_len(hz as int),
            -hx <= i <= hx + 1,
            out@.len() == (i + hx) * bly * blz,
            forall|idx: int|
                0 <= idx < out@.len() ==> {
                    let t = #[trigger] out@[idx];
                    in_box(hx as int, hy as int, hz as int, t) && box_position(
                        hx as int,
                        hy as int,
                        hz as int,
                        t.0 as int,
                        t.1 as int,
                        t.2 as int,
                    ) == idx
                },
        decreases hx + 1 - i,
    {
        let mut j: i32 = -hy;
        proof {
            assert((j + hy) * blz == 0) by (nonlinear_arith)
                requires
                    j + hy == 0,
            ;
        }
        while j <= hy
            invariant
                0 <= hx <= 100000,
                0 <= hy <= 100000,
                0 <= hz <= 100000,
                bly == box_len(hy as int),
                blz == box_len(hz as int),
                -hx <= i <= hx,
                -hy <= j <= hy + 1,
                out@.len() == (i + hx) * bly * blz + (j + hy) * blz,
                forall|idx: int|
                    0 <= idx < out@.len() ==> {
                        let t = #[trigger] out@[idx];
                        in_box(hx as int, hy as int, hz as int, t) && box_position(
                            hx as int,
                            hy as int,
                            hz as int,
                            t.0 as int,
                            t.1 as int,
                            t.2 as int,
                        ) == idx
                    },
            decreases hy + 1 - j,
        {
            let mut k: i32 = -hz;
            while k <= hz
                invariant
                    0 <= hx <= 100000,
                    0 <= hy <= 100000,
                    0 <= hz <= 100000,
                    bly == box_len(hy as int),
                    blz == box_len(hz as int),
                    -hx <= i <= hx,
                    -hy <= j <= hy,
                    -hz <= k <= hz + 1,
                    out@.len() == (i + hx) * bly * blz + (j + hy) * blz + (k + hz),
                    forall|idx: int|
                        0 <= idx < out@.len() ==> {
                            let t = #[trigger] out@[idx];
                            in_box(hx as int, hy as int, hz as int, t) && box_position(
                                hx as int,
                                hy as int,
                                hz as int,
                                t.0 as int,
                                t.1 as int,
                                t.2 as int,
                            ) == idx
                        },
                decreases hz + 1 - k,
            {
                proof {
                    assert(((i + hx) * bly + (j + hy)) * blz == (i + hx) * bly * blz + (j + hy)
                        * blz) by (nonlinear_arith);
                }
                out.push((i, j, k));
                k = k + 1;
            }
            proof {
                assert((j + hy) * blz + blz == (j + 1 + hy) * blz) by (nonlinear_arith);
            }
            j = j + 1;
        }
        proof {
            assert((i + hx) * bly * blz + bly * blz == (i + 1 + hx) * bly * blz)
                by (nonlinear_arith);
        }
        i = i + 1;
    }
    out
}

/// The subsequence of `s` at the positions whose flag in `keep` is set,
/// in the original order.
pub open spec fn selected<T>(s: Seq<T>, keep: Seq<bool>) -> Seq<T>
    recommends
        s.len() == keep.len(),
    decreases s.len(),
{
    if s.len() == 0 {
        Seq::empty()
    } else {
        let prefix = selected(s.drop_last(), keep.drop_last());
        if keep[s.len() - 1] {
            prefix.push(s.last())
        } else {
            prefix
        }
    }
}

/// Keeps exactly the entries whose flag is set, preserving order.  The
/// cutoff sphere test that produces the flags is a numerical question and is
/// made outside the verified core; this function guarantees that applying
/// its verdicts cannot reorder or duplicate basis vectors.
pub fn filter_by_flags<T: Copy>(items: &Vec<T>, keep: &Vec<bool>) -> (r: Vec<T>)
    requires
        items@.len() == keep@.len(),
    ensures
        r@ == selected(items@, keep@),
{
    let n: usize = items.len();
    let mut out: Vec<T> = Vec::new();
    let mut idx: usize = 0;
    while idx < n
        invariant
            n == items@.len(),
            items@.len() == keep@.len(),
            idx <= n,
            out@ == selected(items@.take(idx as int), keep@.take(idx as int)),
        decreases n - idx,
    {
        proof {
            assert(items@.take(idx + 1).drop_last() =~= items@.take(idx as int));
            assert(keep@.take(idx + 1).drop_last() =~= keep@.take(idx as int));
            assert(items@.take(idx + 1).last() == items@[idx as int]);
            assert(keep@.take(idx + 1)[idx as int] == keep@[idx as int]);
        }
        if keep[idx] {
            out.push(items[idx]);
        }
        idx = idx + 1;
    }
    proof {
        assert(items@.take(n as int) =~= items@);
        assert(keep@.take(n as int) =~= keep@);
    }
    out
}

/// Every entry of a selection is an entry of the original sequence.
pub proof fn lemma_selected_is_subsequence<T>(s: Seq<T>, keep: Seq<bool>)
    requires
        s.len() == keep.len(),
    ensures
        forall|i: int|
            0 <= i < selected(s, keep).len() ==> s.contains(#[trigger] selected(s, keep)[i]),
    decreases s.len(),
{
    if s.len() > 0 {
        lemma_selected_is_subsequence(s.drop_last(), keep.drop_last());
        let prefix = selected(s.drop_last(), keep.drop_last());
        assert forall|i: int| 0 <= i < selected(s, keep).len() implies s.contains(
            #[trigger] selected(s, keep)[i],
        ) by {
            if i < prefix.len() {
                assert(s.drop_last().contains(prefix[i]));
                let j = choose|j: int| 0 <= j < s.drop_last().len() && s.drop_last()[j]
                    == prefix[i];
                assert(s[j] == selected(s, keep)[i]);
            } else {
                assert(s[s.len() - 1] == selected(s, keep)[i]);
            }
        }
    }
}

/// Selecting from a sequence of pairwise distinct entries yields pairwise
/// distinct entries: the cutoff filter cannot duplicate a basis vector.
pub proof fn lemma_selected_distinct<T>(s: Seq<T>, keep: Seq<bool>)
    requires
        s.len() == keep.len(),
        crate::fft_map::distinct_seq(s),
    ensures
        crate::fft_map::distinct_seq(selected(s, keep)),
    decreases s.len(),
{
    if s.len() > 0 {
        lemma_selected_distinct(s.drop_last(), keep.drop_last());
        lemma_selected_is_subsequence(s.drop_last(), keep.drop_last());
        let prefix = selected(s.drop_last(), keep.drop_last());
        let r = selected(s, keep);
        assert forall|i: int, j: int| 0 <= i < j < r.len() implies r[i] != r[j] by {
            if j == prefix.len() {
                assert(s.drop_last().contains(prefix[i]));
                let p = choose|p: int| 0 <= p < s.drop_last().len() && s.drop_last()[p]
                    == prefix[i];
                assert(s[p] != s[s.len() - 1]);
            }
        }
    }
}

/// The enumeration rank is injective on the box: together with the length
/// of the enumeration this determines the candidate list uniquely, making
/// the order reproducible across runs.
pub proof fn lemma_box_position_injective(
    hx: int,
    hy: int,
    hz: int,
    s: (i32, i32, i32),
    t: (i32, i32, i32),
)
    requires
        hx >= 0,
        hy >= 0,
        hz >= 0,
        in_box(hx, hy, hz, s),
        in_box(hx, hy, hz, t),
        box_position(hx, hy, hz, s.0 as int, s.1 as int, s.2 as int) == box_position(
            hx,
            hy,
            hz,
            t.0 as int,
            t.1 as int,
            t.2 as int,
        ),
    ensures
        s == t,
{
    let rank = box_position(hx, hy, hz, s.0 as int, s.1 as int, s.2 as int);
    vstd::arithmetic::div_mod::lemma_fundamental_div_mod_converse(
        rank,
        box_len(hz),
        (s.0 + hx) * box_len(hy) + (s.1 + hy),
        s.2 + hz,
    );
    vstd::arithmetic::div_mod::lemma_fundamental_div_mod_converse(
        rank,
        box_len(hz),
        (t.0 + hx) * box_len(hy) + (t.1 + hy),
        t.2 + hz,
    );
    vstd::arithmetic::div_mod::lemma_fundamental_div_mod_converse(
        (s.0 + hx) * box_len(hy) + (s.1 + hy),
        box_len(hy),
        s.0 + hx,
        s.1 + hy,
    );
    vstd::arithmetic::div_mod::lemma_fundamental_div_mod_converse(
        (t.0 + hx) * box_len(hy) + (t.1 + hy),
        box_len(hy),
        t.0 + hx,
        t.1 + hy,
    );
}

/// The mirror direction of the enumeration contract: the offset `(a, b, c)`
/// stands exactly at its rank.  With the length of the enumeration this
/// determines every entry.
pub proof fn lemma_box_entry(
    r: Seq<(i32, i32, i32)>,
    hx: int,
    hy: int,
    hz: int,
    a: int,
    b: int,
    c: int,
)
    requires
        0 <= hx <= 100000,
        0 <= hy <= 100000,
        0 <= hz <= 100000,
        r.len() == box_len(hx) * box_len(hy) * box_len(hz),
        forall|idx: int|
            0 <= idx < r.len() ==> {
                let t = #[trigger] r[idx];
                in_box(hx, hy, hz, t) && box_position(hx, hy, hz, t.0 as int, t.1 as int, t.2 as int)
                    == idx
            },
        -hx <= a <= hx,
        -hy <= b <= hy,
        -hz <= c <= hz,
    ensures
        r[box_position(hx, hy, hz, a, b, c)] == (a as i32, b as i32, c as i32),
{
    let pos = box_position(hx, hy, hz, a, b, c);
    assert(0 <= pos < box_len(hx) * box_len(hy) * box_len(hz)) by (nonlinear_arith)
        requires
            pos == ((a + hx) * box_len(hy) + (b + hy)) * box_len(hz) + (c + hz),
            box_len(hx) == 2 * hx + 1,
            box_len(hy) == 2 * hy + 1,
            box_len(hz) == 2 * hz + 1,
            -hx <= a <= hx,
            -hy <= b <= hy,
            -hz <= c <= hz,
            hx >= 0,
            hy >= 0,
            hz >= 0,
    ;
    let t = r[pos];
    let s = (a as i32, b as i32, c as i32);
    lemma_box_position_injective(hx, hy, hz, t, s);
}

/// Entries of the box enumeration are pairwise distinct: each one carries
/// its own rank.
pub proof fn lemma_box_enumeration_distinct(r: Seq<(i32, i32, i32)>, hx: int, hy: int, hz: int)
    requires
        forall|idx: int|
            0 <= idx < r.len() ==> {
                let t = #[trigger] r[idx];
                in_box(hx, hy, hz, t) && box_position(hx, hy, hz, t.0 as int, t.1 as int, t.2 as int)
                    == idx
            },
    ensures
        crate::fft_map::distinct_seq(r),
{
}

} // verus!
