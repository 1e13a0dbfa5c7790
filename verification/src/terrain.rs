//! Deterministic random numbers for terrain generation (SplitMix64).
use vstd::prelude::*;

verus! {

/// The SplitMix64 increment (the golden ratio in 64-bit fixed point).
pub const GOLDEN_GAMMA: u64 = 0x9E3779B97F4A7C15u64;

/// SplitMix64's output function: scramble a state into a random value.
pub open spec fn splitmix_mix(z: u64) -> u64 {
    let a = (z ^ (z >> 30u64)).wrapping_mul(0xBF58476D1CE4E5B9u64);
    let b = (a ^ (a >> 27u64)).wrapping_mul(0x94D049BB133111EBu64);
    b ^ (b >> 31u64)
}

/// Initial generator state for a seed: the seed advanced once, so that seed
/// 0 does not start from state 0.
pub fn splitmix(z: u64) -> (r: u64)
    ensures
        r == z.wrapping_add(GOLDEN_GAMMA),
{
    z.wrapping_add(GOLDEN_GAMMA)
}

/// Advance the SplitMix64 state by the increment and return the scrambled
/// new state; the advanced state is written back so successive calls differ.
pub fn next_u64(state: &mut u64) -> (r: u64)
    ensures
        *final(state) == old(state).wrapping_add(GOLDEN_GAMMA),
        *final(state) != *old(state),
        r == splitmix_mix(*final(state)),
{
    let mut z = *state;
    z = z.wrapping_add(GOLDEN_GAMMA);
    *state = z;
    let mut x = z;
    x = (x ^ (x >> 30u64)).wrapping_mul(0xBF58476D1CE4E5B9u64);
    x = (x ^ (x >> 27u64)).wrapping_mul(0x94D049BB133111EBu64);
    x ^ (x >> 31u64)
}

/// Vertex index of corner `r` (0..6) of the two triangles of grid quad
/// (i, j) in an `n` × `n` vertex grid: (i0, i2, i1) and (i1, i2, i3), where
/// i0 = (i, j), i1 = (i + 1, j), i2 = (i, j + 1), i3 = (i + 1, j + 1).
pub open spec fn quad_corner(n: int, i: int, j: int, r: int) -> int {
    if r == 0 {
        j * n + i
    } else if r == 1 || r == 4 {
        j * n + n + i
    } else if r == 2 || r == 3 {
        j * n + i + 1
    } else {
        j * n + n + i + 1
    }
}

/// Position of quad (i, j)'s first index among the indices.
pub open spec fn quad_base(n: int, i: int, j: int) -> int {
    6 * (j * (n - 1) + i)
}

proof fn lemma_quad_base_order(n: int, i: int, j: int, i2: int, j2: int)
    requires
        n >= 2,
        0 <= i < n - 1,
        0 <= j,
        0 <= i2 < n - 1,
        0 <= j2,
        j < j2 || (j == j2 && i < i2),
    ensures
        quad_base(n, i, j) + 6 <= quad_base(n, i2, j2),
{
    if j < j2 {
        assert(j * (n - 1) + (n - 1) <= j2 * (n - 1)) by (nonlinear_arith)
            requires
                j < j2,
                n >= 2,
        ;
    }
}

proof fn lemma_corner_in_grid(n: int, i: int, j: int, r: int)
    requires
        n >= 2,
        0 <= i < n - 1,
        0 <= j < n - 1,
        0 <= r < 6,
    ensures
        0 <= quad_corner(n, i, j, r) < n * n,
{
    assert(j * n + n + i + 1 <= n * n - 1) by (nonlinear_arith)
        requires
            0 <= i < n - 1,
            0 <= j < n - 1,
    ;
    assert(0 <= j * n) by (nonlinear_arith)
        requires
            0 <= j,
            n >= 2,
    ;
}

/// Triangle indices of an `n` × `n` vertex grid, two triangles per quad,
/// quads row by row. Every index names a vertex of the grid.
pub fn build_mesh_indices(n: usize) -> (out: Vec<u16>)
    requires
        n >= 1,
        n * n <= 0x1_0000,
    ensures
        out@.len() == 6 * (n - 1) * (n - 1),
        forall|i: int, j: int, r: int|
            0 <= i < n - 1 && 0 <= j < n - 1 && 0 <= r < 6 ==> #[trigger] out@[quad_base(n as int, i, j) + r]
                == quad_corner(n as int, i, j, r),
        forall|k: int| 0 <= k < out@.len() ==> (#[trigger] out@[k]) < n * n,
{
    let mut out: Vec<u16> = Vec::new();
    if n == 1 {
        return out;
    }
    let m = n - 1;
    proof {
        assert(m * m <= n * n) by (nonlinear_arith)
            requires
                m == n - 1,
                n >= 2,
        ;
    }
    let mut j: usize = 0;
    while j < m
        invariant
            n >= 2,
            m == n - 1,
            n * n <= 0x1_0000,
            0 <= j <= m,
            out@.len() == 6 * (j * m),
            forall|i2: int, j2: int, r: int|
                0 <= i2 < m && 0 <= j2 < j && 0 <= r < 6 ==> #[trigger] out@[quad_base(n as int, i2, j2) + r]
                    == quad_corner(n as int, i2, j2, r),
            forall|k: int| 0 <= k < out@.len() ==> (#[trigger] out@[k]) < n * n,
        decreases m - j,
    {
        let mut i: usize = 0;
        while i < m
            invariant
                n >= 2,
                m == n - 1,
                n * n <= 0x1_0000,
                0 <= j < m,
                0 <= i <= m,
                out@.len() == 6 * (j * m + i),
                forall|i2: int, j2: int, r: int|
                    0 <= i2 < m && 0 <= j2 < n - 1 && 0 <= r < 6 && (j2 < j || (j2 == j && i2 < i))
                        ==> #[trigger] out@[quad_base(n as int, i2, j2) + r] == quad_corner(n as int, i2, j2, r),
                forall|k: int| 0 <= k < out@.len() ==> (#[trigger] out@[k]) < n * n,
            decreases m - i,
        {
            proof {
                lemma_corner_in_grid(n as int, i as int, j as int, 5);
                lemma_corner_in_grid(n as int, i as int, j as int, 0);
            }
            let row = j * n;
            let i0 = (row + i) as u16;
            let i1 = (row + (i + 1)) as u16;
            let i2 = (row + n + i) as u16;
            let i3 = (row + n + (i + 1)) as u16;
            let ghost before = out@;
            out.push(i0);
            out.push(i2);
            out.push(i1);
            out.push(i1);
            out.push(i2);
            out.push(i3);
            proof {
                let base = quad_base(n as int, i as int, j as int);
                assert(base == before.len());
                assert forall|i2: int, j2: int, r: int|
                    0 <= i2 < m && 0 <= j2 < n - 1 && 0 <= r < 6 && (j2 < j || (j2 == j && i2 < i + 1))
                        implies #[trigger] out@[quad_base(n as int, i2, j2) + r] == quad_corner(n as int, i2, j2, r) by {
                    if j2 == j && i2 == i {
                    } else {
                        lemma_quad_base_order(n as int, i2, j2, i as int, j as int);
                        assert(out@[quad_base(n as int, i2, j2) + r] == before[quad_base(n as int, i2, j2) + r]);
                    }
                }
                assert forall|k: int| 0 <= k < out@.len() implies (#[trigger] out@[k]) < n * n by {
                    if k < before.len() {
                        assert(out@[k] == before[k]);
                    }
                }
            }
            i = i + 1;
        }
        proof {
            assert(j * m + m == (j + 1) * m) by (nonlinear_arith);
        }
        j = j + 1;
    }
    proof {
        assert(6 * (m * m) == 6 * (n - 1) * (n - 1)) by (nonlinear_arith)
            requires
                m == n - 1,
        ;
    }
    out
}

/// Integer hash of a grid point and seed (the bits behind the terrain's
/// value noise, before scaling into [0, 1)).
pub open spec fn hash_bits_spec(i: i32, j: i32, seed: u32) -> u64 {
    let x = ((i as u64).wrapping_mul(0x27d4_eb2du64) ^ (j as u64).wrapping_mul(0x1656_6791_9E37_79F9u64))
        ^ (seed as u64).wrapping_mul(0x9E37_79B9_7F4A_7C15u64);
    x ^ (x >> 33u64)
}

/// Integer hash of a grid point and seed (the bits behind the terrain's
/// value noise, before scaling into [0, 1)).
pub fn hash_bits(i: i32, j: i32, seed: u32) -> (r: u64)
    ensures
        r == hash_bits_spec(i, j, seed),
{
    let mut x = (i as u64).wrapping_mul(0x27d4_eb2du64);
    x = x ^ (j as u64).wrapping_mul(0x1656_6791_9E37_79F9u64);
    x = x ^ (seed as u64).wrapping_mul(0x9E37_79B9_7F4A_7C15u64);
    x ^ (x >> 33u64)
}

/// Column of vertex `v` in a grid `n` vertices wide.
pub open spec fn grid_x(n: int, v: int) -> int {
    v % n
}

/// Row of vertex `v` in a grid `n` vertices wide.
pub open spec fn grid_y(n: int, v: int) -> int {
    v / n
}

/// Twice the signed area of the triangle (a, b, c) in grid coordinates; its
/// sign is the triangle's winding.
pub open spec fn grid_cross(n: int, a: int, b: int, c: int) -> int {
    (grid_x(n, b) - grid_x(n, a)) * (grid_y(n, c) - grid_y(n, a)) - (grid_y(n, b) - grid_y(n, a)) * (
    grid_x(n, c) - grid_x(n, a))
}

/// Vertex `v` is a corner of triangle `t` (0 or 1) of quad (i, j).
pub open spec fn in_quad_triangle(n: int, i: int, j: int, t: int, v: int) -> bool {
    quad_corner(n, i, j, 3 * t) == v || quad_corner(n, i, j, 3 * t + 1) == v || quad_corner(n, i, j, 3 * t + 2) == v
}

proof fn lemma_grid_coords(n: int, x: int, y: int)
    requires
        n >= 1,
        0 <= x < n,
    ensures
        grid_x(n, y * n + x) == x,
        grid_y(n, y * n + x) == y,
{
    vstd::arithmetic::div_mod::lemma_fundamental_div_mod_converse(y * n + x, n, y, x);
}

/// The terrain mesh splits every grid quad (i, j) along the diagonal from
/// (i + 1, j) to (i, j + 1) into two triangles: the first holds corner
/// (i, j), the second corner (i + 1, j + 1), and both hold the diagonal.
/// Every triangle of every quad has the same winding (signed area -1 in grid
/// coordinates), so none is culled while its neighbours are drawn.
pub proof fn lemma_mesh_quads(n: int, i: int, j: int)
    requires
        n >= 2,
        0 <= i < n - 1,
        0 <= j < n - 1,
    ensures
        grid_cross(n, quad_corner(n, i, j, 0), quad_corner(n, i, j, 1), quad_corner(n, i, j, 2)) == -1,
        grid_cross(n, quad_corner(n, i, j, 3), quad_corner(n, i, j, 4), quad_corner(n, i, j, 5)) == -1,
        in_quad_triangle(n, i, j, 0, j * n + i),
        !in_quad_triangle(n, i, j, 1, j * n + i),
        in_quad_triangle(n, i, j, 1, (j + 1) * n + i + 1),
        !in_quad_triangle(n, i, j, 0, (j + 1) * n + i + 1),
        in_quad_triangle(n, i, j, 0, j * n + i + 1) && in_quad_triangle(n, i, j, 1, j * n + i + 1),
        in_quad_triangle(n, i, j, 0, (j + 1) * n + i) && in_quad_triangle(n, i, j, 1, (j + 1) * n + i),
{
    assert((j + 1) * n == j * n + n) by (nonlinear_arith);
    lemma_grid_coords(n, i, j);
    lemma_grid_coords(n, i + 1, j);
    lemma_grid_coords(n, i, j + 1);
    lemma_grid_coords(n, i + 1, j + 1);
    assert(j * n + n + i + 1 != j * n + i + 1);
    assert(j * n + n + i + 1 != j * n + n + i);
    assert(j * n + i != j * n + n + i);
    let c0 = quad_corner(n, i, j, 0);
    let c1 = quad_corner(n, i, j, 1);
    let c2 = quad_corner(n, i, j, 2);
    let c5 = quad_corner(n, i, j, 5);
    assert(c1 == (j + 1) * n + i);
    assert(c5 == (j + 1) * n + (i + 1));
    assert(c2 == j * n + (i + 1));
    assert(grid_x(n, c0) == i && grid_y(n, c0) == j);
    assert(grid_x(n, c1) == i && grid_y(n, c1) == j + 1);
    assert(grid_x(n, c2) == i + 1 && grid_y(n, c2) == j);
    assert(grid_x(n, c5) == i + 1 && grid_y(n, c5) == j + 1);
    assert(grid_cross(n, c0, c1, c2) == 0 * 0 - 1 * 1);
    assert(grid_cross(n, c2, c1, c5) == (-1) * 1 - 1 * 0);
}

} // verus!
