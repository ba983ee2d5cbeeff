//! Workload generation: a fresh sparse boolean matrix per trial, under one
//! of the two density models. The dense-threshold model takes its draws as
//! plain booleans (one per cell), so the filling logic is verified for every
//! outcome of the random source.

use vstd::prelude::*;
use crate::errors::ConstructionError;
use crate::k2::{blank_grid, mat_cell, mat_grid, mat_height, mat_set, mat_width, new_matrix, MAX_SIDE};
use crate::rng::draw_below;

verus! {

/// Number of random points the sparse density model sets true.
pub const SPARSE_POINTS: usize = 5;

/// The grid the dense-threshold model yields for one draw sequence: cell
/// (x, y) holds draws[y * n + x], over the full n x n domain.
pub open spec fn grid_of_draws(n: int, draws: Seq<bool>) -> Map<(int, int), bool> {
    Map::new(|p: (int, int)| 0 <= p.0 < n && 0 <= p.1 < n, |p: (int, int)| draws[p.1 * n + p.0])
}

/// Dense-threshold density model: one boolean draw decides each cell of the
/// full n x n grid; the draw for cell (x, y) is draws[y * n + x].
pub fn generate_dense(n: usize, draws: &Vec<bool>) -> (r: Result<
    k2_tree::matrix::BitMatrix,
    ConstructionError,
>)
    requires
        n <= MAX_SIDE,
        draws@.len() == n as int * n as int,
    ensures
        r is Ok <==> n >= 1,
        r is Err ==> r->Err_0 == ConstructionError::EmptyMatrix,
        r is Ok ==> ({
            let m = r->Ok_0;
            &&& mat_width(m) == n
            &&& mat_height(m) == n
            &&& mat_grid(m) == grid_of_draws(n as int, draws@)
            &&& forall|x: int, y: int|
                0 <= x < n && 0 <= y < n ==> #[trigger] mat_cell(m, x, y) == draws@[y * (
                n as int) + x]
        }),
{
    if n == 0 {
        return Err(ConstructionError::EmptyMatrix);
    }
    let total = draws.len();
    let mut m = new_matrix(n, n);
    let mut y: usize = 0;
    while y < n
        invariant
            y <= n,
            1 <= n <= MAX_SIDE,
            total == draws@.len(),
            draws@.len() == n as int * n as int,
            mat_width(m) == n,
            mat_height(m) == n,
            mat_grid(m).dom() == blank_grid(n as int, n as int).dom(),
            forall|xx: int, yy: int|
                0 <= xx < n && 0 <= yy < n ==> #[trigger] mat_cell(m, xx, yy) == (yy < y
                    && draws@[yy * (n as int) + xx]),
        decreases n - y,
    {
        let mut x: usize = 0;
        while x < n
            invariant
                x <= n,
                y < n,
                1 <= n <= MAX_SIDE,
                total == draws@.len(),
                draws@.len() == n as int * n as int,
                mat_width(m) == n,
                mat_height(m) == n,
                mat_grid(m).dom() == blank_grid(n as int, n as int).dom(),
                forall|xx: int, yy: int|
                    0 <= xx < n && 0 <= yy < n ==> #[trigger] mat_cell(m, xx, yy) == ((yy < y || (
                    yy == y && xx < x)) && draws@[yy * (n as int) + xx]),
            decreases n - x,
        {
            proof {
                assert(y as int * n as int + x < n as int * n as int) by (nonlinear_arith)
                    requires
                        0 <= x < n as int,
                        0 <= y < n as int,
                ;
            }
            let ghost g0 = mat_grid(m);
            proof {
                assert forall|xx: int, yy: int| 0 <= xx < n && 0 <= yy < n implies (#[trigger] g0.index(
                    (xx, yy),
                ) == ((yy < y as int || (yy == y as int && xx < x as int)) && draws@[yy * (
                n as int) + xx])) by {
                    assert(mat_cell(m, xx, yy) == g0.index((xx, yy)));
                }
            }
            let idx = y * n + x;
            if draws[idx] {
                mat_set(&mut m, x, y, true);
                proof {
                    assert(blank_grid(n as int, n as int).dom().contains(
                        (x as int, y as int),
                    ));
                    assert(mat_grid(m).dom() =~= g0.dom());
                }
            }
            proof {
                assert forall|xx: int, yy: int| 0 <= xx < n && 0 <= yy < n implies #[trigger] mat_cell(
                    m,
                    xx,
                    yy,
                ) == ((yy < y as int || (yy == y as int && xx <= x as int)) && draws@[yy * (
                n as int) + xx]) by {
                    if xx == x as int && yy == y as int {
                        if draws@[y as int * (n as int) + x as int] {
                            assert(mat_cell(m, xx, yy));
                        } else {
                            assert(mat_cell(m, xx, yy) == g0.index((xx, yy)));
                        }
                    } else {
                        assert(mat_cell(m, xx, yy) == g0.index((xx, yy)));
                    }
                }
            }
            x = x + 1;
        }
        y = y + 1;
    }
    proof {
        let target = grid_of_draws(n as int, draws@);
        assert(blank_grid(n as int, n as int).dom() =~= target.dom());
        assert forall|p: (int, int)| #[trigger] target.dom().contains(p) implies mat_grid(m)[p]
            == target[p] by {
            assert(mat_cell(m, p.0, p.1) == draws@[p.1 * (n as int) + p.0]);
        }
        assert(mat_grid(m) =~= target);
    }
    Ok(m)
}

/// Sparse density model: SPARSE_POINTS random coordinates inside the grid
/// are set true, collisions permitted and harmless; the drawn points come
/// back with the matrix, so what a run produced is exact in the contract.
pub fn generate_sparse(n: usize, rng: &mut rand::rngs::ThreadRng) -> (r: Result<
    (k2_tree::matrix::BitMatrix, Vec<(usize, usize)>),
    ConstructionError,
>)
    requires
        n <= MAX_SIDE,
        n as int * n as int <= usize::MAX,
    ensures
        r is Ok <==> n >= 1,
        r is Err ==> r->Err_0 == ConstructionError::EmptyMatrix,
        r is Ok ==> ({
            let (m, pts) = r->Ok_0;
            &&& mat_width(m) == n
            &&& mat_height(m) == n
            &&& pts@.len() == SPARSE_POINTS
            &&& forall|i: int|
                0 <= i < pts@.len() ==> (#[trigger] pts@[i]).0 < n && pts@[i].1 < n
            &&& forall|x: int, y: int|
                0 <= x < n && 0 <= y < n ==> (#[trigger] mat_cell(m, x, y) <==> exists|i: int|
                    0 <= i < pts@.len() && (#[trigger] pts@[i]).0 as int == x && pts@[i].1 as int
                        == y)
        }),
{
    if n == 0 {
        return Err(ConstructionError::EmptyMatrix);
    }
    let mut m = new_matrix(n, n);
    let mut pts: Vec<(usize, usize)> = Vec::new();
    let mut k: usize = 0;
    while k < SPARSE_POINTS
        invariant
            k <= SPARSE_POINTS,
            k == pts@.len(),
            1 <= n <= MAX_SIDE,
            mat_width(m) == n,
            mat_height(m) == n,
            forall|i: int| 0 <= i < pts@.len() ==> (#[trigger] pts@[i]).0 < n && pts@[i].1 < n,
            forall|x: int, y: int|
                0 <= x < n && 0 <= y < n ==> (#[trigger] mat_cell(m, x, y) <==> exists|i: int|
                    0 <= i < pts@.len() && (#[trigger] pts@[i]).0 as int == x && pts@[i].1 as int
                        == y),
        decreases SPARSE_POINTS - k,
    {
        let x = draw_below(rng, n);
        let y = draw_below(rng, n);
        let ghost g0 = mat_grid(m);
        let ghost pts0 = pts@;
        proof {
            assert forall|a: int, b: int| 0 <= a < n && 0 <= b < n implies ((#[trigger] g0.index(
                (a, b),
            )) <==> exists|i: int|
                0 <= i < pts0.len() && (#[trigger] pts0[i]).0 as int == a && pts0[i].1 as int
                    == b) by {
                assert(mat_cell(m, a, b) == g0[(a, b)]);
            }
        }
        mat_set(&mut m, x, y, true);
        pts.push((x, y));
        proof {
            let npts = pts@;
            assert forall|a: int, b: int| 0 <= a < n && 0 <= b < n implies ((#[trigger] mat_cell(
                m,
                a,
                b,
            )) <==> exists|i: int|
                0 <= i < npts.len() && (#[trigger] npts[i]).0 as int == a && npts[i].1 as int
                    == b) by {
                if a == x as int && b == y as int {
                    assert(mat_cell(m, a, b));
                    assert((npts[npts.len() - 1]).0 as int == a && npts[npts.len() - 1].1 as int
                        == b);
                } else {
                    assert(mat_cell(m, a, b) == g0[(a, b)]);
                    if mat_cell(m, a, b) {
                        let i0 = choose|i: int|
                            0 <= i < pts0.len() && (#[trigger] pts0[i]).0 as int == a
                                && pts0[i].1 as int == b;
                        assert((npts[i0]).0 as int == a && npts[i0].1 as int == b);
                    }
                    if exists|i: int|
                        0 <= i < npts.len() && (#[trigger] npts[i]).0 as int == a
                            && npts[i].1 as int == b {
                        let i1 = choose|i: int|
                            0 <= i < npts.len() && (#[trigger] npts[i]).0 as int == a
                                && npts[i].1 as int == b;
                        if i1 == npts.len() - 1 {
                            assert(npts[i1] == (x, y));
                            assert(false);
                        } else {
                            assert(pts0[i1] == npts[i1]);
                            assert(g0[(a, b)]);
                        }
                    }
                }
            }
        }
        k = k + 1;
    }
    Ok((m, pts))
}

} // verus!
