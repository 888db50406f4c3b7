//! The coefficient-to-grid index map of the transform grid.
//!
//! A compact vector of basis coefficients is scattered into a dense
//! three-dimensional buffer before an inverse transform and gathered back
//! out after a forward transform.  The map from each reciprocal-lattice
//! offset to its flat buffer position (row-major order with periodic
//! wraparound of negative offsets) is computed once per grid; everything
//! the round trip relies on — each position is in range, offsets inside
//! the Nyquist window collide nowhere, and scatter followed by gather is
//! the identity — is proved here.

use vstd::prelude::*;

verus! {

use vstd::arithmetic::div_mod::{
    lemma_fundamental_div_mod,
    lemma_fundamental_div_mod_converse,
    lemma_fundamental_div_mod_converse_mod,
    lemma_mod_bound,
};
use vstd::pervasive::VecAdditionalExecFns;

/// Flat row-major position of the offset `t` on a grid with dimensions
/// `(nx, ny, nz)`, after wrapping each component periodically into range.
/// `%` here is the Euclidean remainder, so negative offsets wrap to the
/// upper end of the axis.
pub open spec fn flat_of(t: (i32, i32, i32), nx: int, ny: int, nz: int) -> int {
    (t.0 as int % nx) * ny * nz + (t.1 as int % ny) * nz + (t.2 as int % nz)
}

/// The offset component `g` lies strictly inside the aliasing-free window
/// of an axis of length `n`: its magnitude is below half the axis.
pub open spec fn in_wrap_window(g: int, n: int) -> bool {
    2 * (if g < 0 {
        -g
    } else {
        g
    }) < n
}

/// No two entries of the sequence are equal.
pub open spec fn distinct_seq<T>(s: Seq<T>) -> bool {
    forall|i: int, j: int| 0 <= i < j < s.len() ==> s[i] != s[j]
}

/// Wraps one offset component periodically into `0 .. n`.
pub fn wrap_index(g: i32, n: usize) -> (r: usize)
    requires
        1 <= n <= 0x3fff_ffff,
    ensures
        r < n,
        r as int == g as int % n as int,
{
    if g >= 0 {
        let r: usize = (g as usize) % n;
        proof {
            lemma_mod_bound(g as int, n as int);
        }
        r
    } else {
        let neg: i64 = -(g as i64);
        let a: usize = (neg % (n as i64)) as usize;
        proof {
            lemma_mod_bound(neg as int, n as int);
            lemma_fundamental_div_mod(neg as int, n as int);
            let q = neg as int / n as int;
            if a as int == 0 {
                assert(g as int == (-q) * n as int + 0) by (nonlinear_arith)
                    requires
                        neg as int == n as int * q + a as int,
                        g as int == -(neg as int),
                        a as int == 0,
                ;
                lemma_fundamental_div_mod_converse_mod(g as int, n as int, -q, 0);
            } else {
                assert(g as int == (-q - 1) * n as int + (n as int - a as int))
                    by (nonlinear_arith)
                    requires
                        neg as int == n as int * q + a as int,
                        g as int == -(neg as int),
                ;
                lemma_fundamental_div_mod_converse_mod(
                    g as int,
                    n as int,
                    -q - 1,
                    n as int - a as int,
                );
            }
        }
        if a == 0 {
            0
        } else {
            n - a
        }
    }
}

/// Builds the flat-position map of a list of reciprocal-lattice offsets on
/// a grid with dimensions `dims`.  Every entry is the row-major position of
/// the periodically wrapped offset, and in particular in range for a dense
/// buffer of `dims[0] * dims[1] * dims[2]` elements.
pub fn build_flat_map(g_vectors: &Vec<(i32, i32, i32)>, dims: [usize; 3]) -> (r: Vec<usize>)
    requires
        1 <= dims[0] <= 0x3fff_ffff,
        1 <= dims[1] <= 0x3fff_ffff,
        1 <= dims[2] <= 0x3fff_ffff,
        dims[0] * dims[1] * dims[2] <= usize::MAX,
    ensures
        r@.len() == g_vectors@.len(),
        forall|i: int|
            0 <= i < r@.len() ==> #[trigger] r@[i] as int == flat_of(
                g_vectors@[i],
                dims[0] as int,
                dims[1] as int,
                dims[2] as int,
            ),
        forall|i: int| 0 <= i < r@.len() ==> #[trigger] r@[i] < dims[0] * dims[1] * dims[2],
{
    let nx: usize = dims[0];
    let ny: usize = dims[1];
    let nz: usize = dims[2];
    proof {
        assert(ny * nz <= nx * ny * nz && nx * ny * nz == nx * (ny * nz)) by (nonlinear_arith)
            requires
                nx >= 1,
                ny >= 1,
                nz >= 1,
        ;
    }
    let stride: usize = ny * nz;
    let mut out: Vec<usize> = Vec::new();
    let mut i: usize = 0;
    while i < g_vectors.len()
        invariant
            1 <= nx <= 0x3fff_ffff,
            1 <= ny <= 0x3fff_ffff,
            1 <= nz <= 0x3fff_ffff,
            nx == dims[0],
            ny == dims[1],
            nz == dims[2],
            stride == ny * nz,
            nx * ny * nz <= usize::MAX,
            i <= g_vectors@.len(),
            out@.len() == i,
            forall|k: int|
                0 <= k < out@.len() ==> #[trigger] out@[k] as int == flat_of(
                    g_vectors@[k],
                    nx as int,
                    ny as int,
                    nz as int,
                ),
            forall|k: int| 0 <= k < out@.len() ==> #[trigger] out@[k] < nx * ny * nz,
        decreases g_vectors@.len() - i,
    {
        let t: (i32, i32, i32) = g_vectors[i];
        let u: usize = wrap_index(t.0, nx);
        let v: usize = wrap_index(t.1, ny);
        let w: usize = wrap_index(t.2, nz);
        proof {
            assert(u * stride + v * nz + w < nx * ny * nz && u * stride == (u as int) * ny * nz)
                by (nonlinear_arith)
                requires
                    u < nx,
                    v < ny,
                    w < nz,
                    stride == ny * nz,
                    nx >= 1,
                    ny >= 1,
                    nz >= 1,
            ;
        }
        let flat: usize = u * stride + v * nz + w;
        out.push(flat);
        i = i + 1;
    }
    out
}

/// Checks at run time that every map entry below `bound` occurs only once,
/// the precondition of a collision-free scatter.
pub fn all_distinct_below(map: &Vec<usize>, bound: usize) -> (r: bool)
    requires
        forall|i: int| 0 <= i < map@.len() ==> #[trigger] map@[i] < bound,
    ensures
        r == distinct_seq(map@),
{
    let mut seen: Vec<bool> = Vec::new();
    let mut p: usize = 0;
    while p < bound
        invariant
            p <= bound,
            seen@.len() == p,
            forall|q: int| 0 <= q < p ==> !(#[trigger] seen@[q]),
        decreases bound - p,
    {
        seen.push(false);
        p = p + 1;
    }
    let mut i: usize = 0;
    while i < map.len()
        invariant
            forall|k: int| 0 <= k < map@.len() ==> #[trigger] map@[k] < bound,
            seen@.len() == bound,
            i <= map@.len(),
            forall|q: int|
                0 <= q < bound ==> (#[trigger] seen@[q] <==> exists|j: int|
                    0 <= j < i && map@[j] == q),
            forall|a: int, b: int| 0 <= a < b < i ==> map@[a] != map@[b],
        decreases map@.len() - i,
    {
        let pos: usize = map[i];
        if seen[pos] {
            proof {
                let j = choose|j: int| 0 <= j < i && map@[j] == pos as int;
                assert(map@[j] == map@[i as int]);
            }
            return false;
        }
        seen.set(pos, true);
        i = i + 1;
    }
    true
}

/// Scatters the compact coefficient vector into the dense grid buffer:
/// position `map[i]` receives `coeffs[i]`, every unmapped position receives
/// `zero`.  The map must be collision-free so that no coefficient is lost.
pub fn scatter<T: Copy>(coeffs: &Vec<T>, map: &Vec<usize>, grid: &mut Vec<T>, zero: T)
    requires
        map@.len() == coeffs@.len(),
        forall|i: int| 0 <= i < map@.len() ==> #[trigger] map@[i] < old(grid)@.len(),
        distinct_seq(map@),
    ensures
        final(grid)@.len() == old(grid)@.len(),
        forall|i: int|
            0 <= i < coeffs@.len() ==> final(grid)@[#[trigger] map@[i] as int] == coeffs@[i],
        forall|p: int|
            0 <= p < final(grid)@.len() && !map@.contains(p as usize)
                ==> (#[trigger] final(grid)@[p]) == zero,
{
    let n: usize = grid.len();
    let mut p: usize = 0;
    while p < n
        invariant
            n == grid@.len(),
            p <= n,
            forall|q: int| 0 <= q < p ==> #[trigger] grid@[q] == zero,
        decreases n - p,
    {
        grid.set(p, zero);
        p = p + 1;
    }
    let mut i: usize = 0;
    while i < map.len()
        invariant
            map@.len() == coeffs@.len(),
            forall|k: int| 0 <= k < map@.len() ==> #[trigger] map@[k] < grid@.len(),
            distinct_seq(map@),
            grid@.len() == n,
            i <= map@.len(),
            forall|j: int| 0 <= j < i ==> grid@[#[trigger] map@[j] as int] == coeffs@[j],
            forall|p: int|
                0 <= p < grid@.len() && !map@.contains(p as usize) ==> #[trigger] grid@[p]
                    == zero,
        decreases map@.len() - i,
    {
        grid.set(map[i], coeffs[i]);
        proof {
            assert(map@.contains(map@[i as int]));
        }
        i = i + 1;
    }
}

/// Gathers the dense grid buffer back into a compact coefficient vector:
/// entry `i` of the result is the grid value at position `map[i]`.  Grid
/// content at unmapped positions is discarded.
pub fn gather<T: Copy>(grid: &Vec<T>, map: &Vec<usize>) -> (r: Vec<T>)
    requires
        forall|i: int| 0 <= i < map@.len() ==> #[trigger] map@[i] < grid@.len(),
    ensures
        r@.len() == map@.len(),
        forall|i: int| 0 <= i < map@.len() ==> #[trigger] r@[i] == grid@[map@[i] as int],
{
    let mut out: Vec<T> = Vec::new();
    let mut i: usize = 0;
    while i < map.len()
        invariant
            forall|k: int| 0 <= k < map@.len() ==> #[trigger] map@[k] < grid@.len(),
            i <= map@.len(),
            out@.len() == i,
            forall|k: int| 0 <= k < i ==> #[trigger] out@[k] == grid@[map@[k] as int],
        decreases map@.len() - i,
    {
        out.push(grid[map[i]]);
        i = i + 1;
    }
    out
}

/// Round trip of the index map: scattering a coefficient vector into a
/// grid and gathering through the same map returns the original vector,
/// whatever the grid held before.  This is the discrete half of the
/// transform round-trip guarantee; the numerical half is that the forward
/// and inverse transforms between scatter and gather invert each other.
pub proof fn lemma_scatter_gather_round_trip<T>(
    coeffs: Seq<T>,
    map: Seq<usize>,
    grid: Seq<T>,
    out: Seq<T>,
)
    requires
        map.len() == coeffs.len(),
        forall|i: int| 0 <= i < map.len() ==> #[trigger] map[i] < grid.len(),
        forall|i: int| 0 <= i < coeffs.len() ==> grid[#[trigger] map[i] as int] == coeffs[i],
        out.len() == map.len(),
        forall|i: int| 0 <= i < out.len() ==> #[trigger] out[i] == grid[map[i] as int],
    ensures
        out == coeffs,
{
    assert(out =~= coeffs);
}

/// Two equal Euclidean remainders of values inside the aliasing-free
/// window force the values themselves to be equal.
proof fn lemma_window_mod_injective(a: int, b: int, n: int)
    requires
        n >= 1,
        in_wrap_window(a, n),
        in_wrap_window(b, n),
        a % n == b % n,
    ensures
        a == b,
{
    lemma_fundamental_div_mod(a, n);
    lemma_fundamental_div_mod(b, n);
    lemma_mod_bound(a, n);
    assert(a == b) by (nonlinear_arith)
        requires
            a == n * (a / n) + a % n,
            b == n * (b / n) + b % n,
            a % n == b % n,
            -n < 2 * a < n,
            -n < 2 * b < n,
            n >= 1,
    ;
}

/// Distinct offsets inside the aliasing-free window of the grid map to
/// distinct flat positions: the wraparound index map cannot alias two
/// basis vectors onto one buffer slot.
pub proof fn lemma_flat_of_injective(
    s: (i32, i32, i32),
    t: (i32, i32, i32),
    nx: int,
    ny: int,
    nz: int,
)
    requires
        nx >= 1,
        ny >= 1,
        nz >= 1,
        in_wrap_window(s.0 as int, nx),
        in_wrap_window(s.1 as int, ny),
        in_wrap_window(s.2 as int, nz),
        in_wrap_window(t.0 as int, nx),
        in_wrap_window(t.1 as int, ny),
        in_wrap_window(t.2 as int, nz),
        flat_of(s, nx, ny, nz) == flat_of(t, nx, ny, nz),
    ensures
        s == t,
{
    let us = s.0 as int % nx;
    let vs = s.1 as int % ny;
    let ws = s.2 as int % nz;
    let ut = t.0 as int % nx;
    let vt = t.1 as int % ny;
    let wt = t.2 as int % nz;
    lemma_mod_bound(s.0 as int, nx);
    lemma_mod_bound(s.1 as int, ny);
    lemma_mod_bound(s.2 as int, nz);
    lemma_mod_bound(t.0 as int, nx);
    lemma_mod_bound(t.1 as int, ny);
    lemma_mod_bound(t.2 as int, nz);
    let x = flat_of(s, nx, ny, nz);
    assert(x == us * (ny * nz) + (vs * nz + ws) && 0 <= vs * nz + ws < ny * nz && x == ut * (ny
        * nz) + (vt * nz + wt) && 0 <= vt * nz + wt < ny * nz) by (nonlinear_arith)
        requires
            x == us * ny * nz + vs * nz + ws,
            x == ut * ny * nz + vt * nz + wt,
            0 <= us < nx,
            0 <= vs < ny,
            0 <= ws < nz,
            0 <= ut < nx,
            0 <= vt < ny,
            0 <= wt < nz,
    ;
    lemma_fundamental_div_mod_converse(x, ny * nz, us, vs * nz + ws);
    lemma_fundamental_div_mod_converse(x, ny * nz, ut, vt * nz + wt);
    let y = vs * nz + ws;
    lemma_fundamental_div_mod_converse(y, nz, vs, ws);
    lemma_fundamental_div_mod_converse(y, nz, vt, wt);
    lemma_window_mod_injective(s.0 as int, t.0 as int, nx);
    lemma_window_mod_injective(s.1 as int, t.1 as int, ny);
    lemma_window_mod_injective(s.2 as int, t.2 as int, nz);
}

/// A list of distinct reciprocal-lattice offsets inside the aliasing-free
/// window yields a collision-free flat-position map.
pub proof fn lemma_window_map_distinct(
    g_vectors: Seq<(i32, i32, i32)>,
    flat: Seq<usize>,
    nx: int,
    ny: int,
    nz: int,
)
    requires
        nx >= 1,
        ny >= 1,
        nz >= 1,
        distinct_seq(g_vectors),
        forall|i: int|
            0 <= i < g_vectors.len() ==> {
                let t = #[trigger] g_vectors[i];
                in_wrap_window(t.0 as int, nx) && in_wrap_window(t.1 as int, ny)
                    && in_wrap_window(t.2 as int, nz)
            },
        flat.len() == g_vectors.len(),
        forall|i: int|
            0 <= i < flat.len() ==> #[trigger] flat[i] as int == flat_of(g_vectors[i], nx, ny, nz),
    ensures
        distinct_seq(flat),
{
    assert forall|i: int, j: int| 0 <= i < j < flat.len() implies flat[i] != flat[j] by {
        if flat[i] == flat[j] {
            lemma_flat_of_injective(g_vectors[i], g_vectors[j], nx, ny, nz);
        }
    }
}

/// The index map of one transform grid: the flat buffer position of every
/// basis coefficient, built once at grid construction and reused by every
/// transform.  A value of this type is only ever constructed
/// collision-free and in range, so every scatter through it keeps all
/// coefficients and every gather reads the positions it wrote.
pub struct GridIndexMap {
    dims: [usize; 3],
    map: Vec<usize>,
}

impl GridIndexMap {
    /// Grid points along the first axis.
    pub closed spec fn nx(self) -> int {
        self.dims[0] as int
    }

    /// Grid points along the second axis.
    pub closed spec fn ny(self) -> int {
        self.dims[1] as int
    }

    /// Grid points along the third axis.
    pub closed spec fn nz(self) -> int {
        self.dims[2] as int
    }

    /// Total number of grid points.
    pub closed spec fn total(self) -> int {
        self.nx() * self.ny() * self.nz()
    }

    /// The flat buffer position of each basis coefficient.
    pub closed spec fn positions(self) -> Seq<usize> {
        self.map@
    }

    /// Established by the constructor, preserved by every method: each
    /// position is in range and no two coefficients share one.
    pub closed spec fn wf(self) -> bool {
        &&& 1 <= self.nx() <= 0x3fff_ffff
        &&& 1 <= self.ny() <= 0x3fff_ffff
        &&& 1 <= self.nz() <= 0x3fff_ffff
        &&& self.total() <= usize::MAX
        &&& forall|i: int| 0 <= i < self.map@.len() ==> #[trigger] self.map@[i] < self.total()
        &&& distinct_seq(self.map@)
    }

    /// Builds the index map of the given offsets on a grid with dimensions
    /// `dims`, or reports the aliasing pair when two offsets wrap onto the
    /// same buffer position (possible only for offsets outside the
    /// aliasing-free window).
    pub fn new(g_vectors: &Vec<(i32, i32, i32)>, dims: [usize; 3]) -> (r: Option<GridIndexMap>)
        requires
            1 <= dims[0] <= 0x3fff_ffff,
            1 <= dims[1] <= 0x3fff_ffff,
            1 <= dims[2] <= 0x3fff_ffff,
            dims[0] * dims[1] * dims[2] <= usize::MAX,
        ensures
            match r {
                Some(m) => {
                    &&& m.wf()
                    &&& m.nx() == dims[0]
                    &&& m.ny() == dims[1]
                    &&& m.nz() == dims[2]
                    &&& m.positions().len() == g_vectors@.len()
                    &&& forall|i: int|
                        0 <= i < g_vectors@.len() ==> #[trigger] m.positions()[i] as int
                            == flat_of(g_vectors@[i], dims[0] as int, dims[1] as int, dims[2] as int)
                },
                None => exists|i: int, j: int|
                    0 <= i < j < g_vectors@.len() && flat_of(
                        #[trigger] g_vectors@[i],
                        dims[0] as int,
                        dims[1] as int,
                        dims[2] as int,
                    ) == flat_of(
                        #[trigger] g_vectors@[j],
                        dims[0] as int,
                        dims[1] as int,
                        dims[2] as int,
                    ),
            },
    {
        let map = build_flat_map(g_vectors, dims);
        proof {
            assert(dims[0] * dims[1] * dims[2] == (dims[0] * dims[1]) * dims[2])
                by (nonlinear_arith);
            assert(dims[0] * dims[1] <= dims[0] * dims[1] * dims[2]) by (nonlinear_arith)
                requires
                    dims[0] >= 1,
                    dims[1] >= 1,
                    dims[2] >= 1,
            ;
        }
        let total: usize = dims[0] * dims[1] * dims[2];
        if all_distinct_below(&map, total) {
            Some(GridIndexMap { dims, map })
        } else {
            proof {
                let (i, j) = choose|i: int, j: int|
                    0 <= i < j < map@.len() && map@[i] == map@[j];
                assert(map@[i] as int == flat_of(
                    g_vectors@[i],
                    dims[0] as int,
                    dims[1] as int,
                    dims[2] as int,
                ));
                assert(map@[j] as int == flat_of(
                    g_vectors@[j],
                    dims[0] as int,
                    dims[1] as int,
                    dims[2] as int,
                ));
            }
            None
        }
    }

    /// Number of mapped coefficients.
    pub fn len(&self) -> (r: usize)
        ensures
            r == self.positions().len(),
    {
        self.map.len()
    }

    /// Total number of grid points, the length of a dense buffer.
    pub fn total_points(&self) -> (r: usize)
        requires
            self.wf(),
        ensures
            r == self.total(),
    {
        proof {
            assert(self.nx() * self.ny() * self.nz() == (self.nx() * self.ny()) * self.nz()
                && self.nx() * self.ny() <= self.nx() * self.ny() * self.nz())
                by (nonlinear_arith)
                requires
                    self.nx() >= 1,
                    self.ny() >= 1,
                    self.nz() >= 1,
            ;
        }
        self.dims[0] * self.dims[1] * self.dims[2]
    }

    /// Scatters the coefficients into the dense buffer through this map:
    /// position `positions()[i]` receives `coeffs[i]`, all other positions
    /// receive `zero`.  Collision-freedom is part of the type's invariant,
    /// so no coefficient is lost.
    pub fn scatter_into<T: Copy>(&self, coeffs: &Vec<T>, grid: &mut Vec<T>, zero: T)
        requires
            self.wf(),
            coeffs@.len() == self.positions().len(),
            old(grid)@.len() == self.total(),
        ensures
            final(grid)@.len() == old(grid)@.len(),
            forall|i: int|
                0 <= i < coeffs@.len() ==> final(grid)@[#[trigger] self.positions()[i] as int]
                    == coeffs@[i],
            forall|p: int|
                0 <= p < final(grid)@.len() && !self.positions().contains(p as usize)
                    ==> (#[trigger] final(grid)@[p]) == zero,
    {
        scatter(coeffs, &self.map, grid, zero);
    }

    /// Gathers the dense buffer back into a compact coefficient vector
    /// through this map; buffer content at unmapped positions is
    /// discarded.
    pub fn gather_from<T: Copy>(&self, grid: &Vec<T>) -> (r: Vec<T>)
        requires
            self.wf(),
            grid@.len() == self.total(),
        ensures
            r@.len() == self.positions().len(),
            forall|i: int|
                0 <= i < r@.len() ==> #[trigger] r@[i] == grid@[self.positions()[i] as int],
    {
        gather(grid, &self.map)
    }
}

/// The whole basis pipeline yields a collision-free scatter map: take the
/// box enumeration of candidate offsets, keep any subset of them (the
/// cutoff sphere), and map the kept offsets to flat grid positions — as
/// long as every kept offset lies inside the aliasing-free window of the
/// grid, no two land on the same buffer slot, so a scatter through this
/// map loses no coefficient.
pub proof fn lemma_basis_pipeline_collision_free(
    candidates: Seq<(i32, i32, i32)>,
    keep: Seq<bool>,
    flat: Seq<usize>,
    hx: int,
    hy: int,
    hz: int,
    nx: int,
    ny: int,
    nz: int,
)
    requires
        nx >= 1,
        ny >= 1,
        nz >= 1,
        forall|idx: int|
            0 <= idx < candidates.len() ==> {
                let t = #[trigger] candidates[idx];
                crate::basis::in_box(hx, hy, hz, t) && crate::basis::box_position(
                    hx,
                    hy,
                    hz,
                    t.0 as int,
                    t.1 as int,
                    t.2 as int,
                ) == idx
            },
        keep.len() == candidates.len(),
        forall|i: int|
            0 <= i < crate::basis::selected(candidates, keep).len() ==> {
                let t = #[trigger] crate::basis::selected(candidates, keep)[i];
                in_wrap_window(t.0 as int, nx) && in_wrap_window(t.1 as int, ny)
                    && in_wrap_window(t.2 as int, nz)
            },
        flat.len() == crate::basis::selected(candidates, keep).len(),
        forall|i: int|
            0 <= i < flat.len() ==> #[trigger] flat[i] as int == flat_of(
                crate::basis::selected(candidates, keep)[i],
                nx,
                ny,
                nz,
            ),
    ensures
        distinct_seq(flat),
{
    crate::basis::lemma_box_enumeration_distinct(candidates, hx, hy, hz);
    crate::basis::lemma_selected_distinct(candidates, keep);
    lemma_window_map_distinct(crate::basis::selected(candidates, keep), flat, nx, ny, nz);
}

} // verus!
