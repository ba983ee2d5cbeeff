//! Trusted boundary to the `k2_tree` crate, the collaborator that supplies
//! both the dense bit-matrix and the hierarchical compressed structure.
//! Everything the verified harness knows of those two types is stated here.

use vstd::prelude::*;
use crate::errors::ConstructionError;

verus! {

/// Dimension bound under which the collaborator's build arithmetic cannot
/// overflow while it grows the tree to cover the matrix.
pub const MAX_SIDE: usize = 0x4000_0000;

/// Branching-factor bound with the same purpose.
pub const MAX_BRANCH: usize = 0x1000;

#[verifier::external_type_specification]
#[verifier::external_body]
pub struct ExBitMatrix(k2_tree::matrix::BitMatrix);

#[verifier::external_type_specification]
#[verifier::external_body]
pub struct ExK2Tree(k2_tree::K2Tree);

/// Width of a `BitMatrix`.
pub uninterp spec fn mat_width(m: k2_tree::matrix::BitMatrix) -> int;

/// Height of a `BitMatrix`.
pub uninterp spec fn mat_height(m: k2_tree::matrix::BitMatrix) -> int;

/// The bits a `BitMatrix` holds, keyed by (x, y) over its width and height.
pub uninterp spec fn mat_grid(m: k2_tree::matrix::BitMatrix) -> Map<(int, int), bool>;

/// One bit of a `BitMatrix`.
pub open spec fn mat_cell(m: k2_tree::matrix::BitMatrix, x: int, y: int) -> bool {
    mat_grid(m)[(x, y)]
}

/// The grid of an all-false w x h matrix.
pub open spec fn blank_grid(w: int, h: int) -> Map<(int, int), bool> {
    Map::new(|p: (int, int)| 0 <= p.0 < w && 0 <= p.1 < h, |p: (int, int)| false)
}

/// Side length of the square bit-matrix a `K2Tree` represents; at least as
/// large as the matrix it was built from, the rest padded with false.
pub uninterp spec fn tree_side(t: k2_tree::K2Tree) -> int;

/// The bits a `K2Tree` represents, keyed by (x, y) over its square side.
pub uninterp spec fn tree_grid(t: k2_tree::K2Tree) -> Map<(int, int), bool>;

/// Length of the packed stem-bit array of a `K2Tree`.
pub uninterp spec fn tree_stem_bits(t: k2_tree::K2Tree) -> int;

/// Length of the packed leaf-bit array of a `K2Tree`.
pub uninterp spec fn tree_leaf_bits(t: k2_tree::K2Tree) -> int;

/// One bit of the matrix a `K2Tree` represents.
pub open spec fn tree_cell(t: k2_tree::K2Tree, x: int, y: int) -> bool {
    tree_grid(t)[(x, y)]
}

/// The packed stem-bit count of the tree that `K2Tree::from_matrix` builds:
/// the build is deterministic, so the count is a function of the matrix's
/// grid and dimensions and the two branching factors alone.
pub uninterp spec fn stem_bits_of(
    grid: Map<(int, int), bool>,
    w: int,
    h: int,
    stem_k: int,
    leaf_k: int,
) -> int;

/// The packed leaf-bit count of the tree that `K2Tree::from_matrix` builds,
/// a function of the same five inputs.
pub uninterp spec fn leaf_bits_of(
    grid: Map<(int, int), bool>,
    w: int,
    h: int,
    stem_k: int,
    leaf_k: int,
) -> int;

/// Relies on `BitMatrix::with_dimensions`: a fresh width x height matrix
/// with every bit false.
#[verifier::external_body]
pub fn new_matrix(width: usize, height: usize) -> (r: k2_tree::matrix::BitMatrix)
    requires
        width * height <= usize::MAX,
    ensures
        mat_width(r) == width,
        mat_height(r) == height,
        mat_grid(r) == blank_grid(width as int, height as int),
{
    k2_tree::matrix::BitMatrix::with_dimensions(width, height)
}

/// Relies on `BitMatrix::set`: in bounds it stores the bit and returns Ok,
/// leaving every other bit and both dimensions unchanged.
#[verifier::external_body]
pub fn mat_set(m: &mut k2_tree::matrix::BitMatrix, x: usize, y: usize, state: bool)
    requires
        x < mat_width(*old(m)),
        y < mat_height(*old(m)),
    ensures
        mat_width(*final(m)) == mat_width(*old(m)),
        mat_height(*final(m)) == mat_height(*old(m)),
        mat_grid(*final(m)) == mat_grid(*old(m)).insert((x as int, y as int), state),
{
    let _ = m.set(x, y, state);
}

/// Relies on `BitMatrix::get`: in bounds it returns the stored bit.
#[verifier::external_body]
pub fn mat_get(m: &k2_tree::matrix::BitMatrix, x: usize, y: usize) -> (r: bool)
    requires
        x < mat_width(*m),
        y < mat_height(*m),
    ensures
        r == mat_cell(*m, x as int, y as int),
{
    m.get(x, y).unwrap()
}

/// Relies on the derived `BitMatrix::clone`: it copies the dimensions and
/// the bit store field for field.
#[verifier::external_body]
pub fn mat_clone(m: &k2_tree::matrix::BitMatrix) -> (r: k2_tree::matrix::BitMatrix)
    ensures
        mat_width(r) == mat_width(*m),
        mat_height(r) == mat_height(*m),
        mat_grid(r) == mat_grid(*m),
{
    m.clone()
}

/// Relies on the public `width` field of `BitMatrix`.
#[verifier::external_body]
pub fn mat_width_of(m: &k2_tree::matrix::BitMatrix) -> (r: usize)
    ensures
        r == mat_width(*m),
{
    m.width
}

/// Relies on the public `height` field of `BitMatrix`.
#[verifier::external_body]
pub fn mat_height_of(m: &k2_tree::matrix::BitMatrix) -> (r: usize)
    ensures
        r == mat_height(*m),
{
    m.height
}

/// Relies on `K2Tree::from_matrix`: it refuses a branching factor below two
/// (the only error its source raises on a matrix of bounded dimensions) and
/// otherwise grows a tree from a stem_k*stem_k root stem until the square it
/// represents covers the matrix, then sets exactly the matrix's true bits,
/// leaving the padding false. The build draws on nothing but its arguments,
/// so the packed stem and leaf array lengths it ends with are functions of
/// the matrix and the branching factors, named `stem_bits_of`/`leaf_bits_of`.
#[verifier::external_body]
pub fn tree_from_matrix(m: k2_tree::matrix::BitMatrix, stem_k: usize, leaf_k: usize) -> (r:
    Result<k2_tree::K2Tree, ConstructionError>)
    requires
        mat_width(m) <= MAX_SIDE,
        mat_height(m) <= MAX_SIDE,
        stem_k <= MAX_BRANCH,
        leaf_k <= MAX_BRANCH,
    ensures
        r is Ok <==> (stem_k >= 2 && leaf_k >= 2),
        r is Err ==> r->Err_0 == ConstructionError::BranchFactorTooSmall,
        r is Ok ==> ({
            let t = r->Ok_0;
            &&& tree_side(t) >= mat_width(m)
            &&& tree_side(t) >= mat_height(m)
            &&& forall|x: int, y: int|
                0 <= x < mat_width(m) && 0 <= y < mat_height(m) ==> tree_cell(t, x, y)
                    == mat_cell(m, x, y)
            &&& forall|x: int, y: int|
                0 <= x < tree_side(t) && 0 <= y < tree_side(t) && !(x < mat_width(m) && y
                    < mat_height(m)) ==> !tree_cell(t, x, y)
            &&& tree_stem_bits(t) >= stem_k * stem_k
            &&& tree_leaf_bits(t) >= 0
            &&& tree_stem_bits(t) == stem_bits_of(
                mat_grid(m),
                mat_width(m),
                mat_height(m),
                stem_k as int,
                leaf_k as int,
            )
            &&& tree_leaf_bits(t) == leaf_bits_of(
                mat_grid(m),
                mat_width(m),
                mat_height(m),
                stem_k as int,
                leaf_k as int,
            )
        }),
{
    match k2_tree::K2Tree::from_matrix(m, stem_k, leaf_k) {
        Ok(t) => Ok(t),
        Err(_) => Err(ConstructionError::BranchFactorTooSmall),
    }
}

/// Relies on `K2Tree::get`: inside the represented square, on a tree this
/// library built, it returns the represented bit.
#[verifier::external_body]
pub fn tree_get(t: &k2_tree::K2Tree, x: usize, y: usize) -> (r: bool)
    requires
        x < tree_side(*t),
        y < tree_side(*t),
    ensures
        r == tree_grid(*t)[(x as int, y as int)],
{
    t.get(x, y).unwrap()
}

/// Relies on the public `stems` field of `K2Tree`: its length is the packed
/// stem-bit count.
#[verifier::external_body]
pub fn tree_stem_len(t: &k2_tree::K2Tree) -> (r: usize)
    ensures
        r == tree_stem_bits(*t),
{
    t.stems.len()
}

/// Relies on the public `leaves` field of `K2Tree`: its length is the packed
/// leaf-bit count.
#[verifier::external_body]
pub fn tree_leaf_len(t: &k2_tree::K2Tree) -> (r: usize)
    ensures
        r == tree_leaf_bits(*t),
{
    t.leaves.len()
}

} // verus!
