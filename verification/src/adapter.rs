//! The capability contract both representations of a sparse boolean matrix
//! satisfy — build from a matrix, bounded point query, byte-size report —
//! together with the two representations the harness compares: the dense
//! bit-packed matrix and the hierarchical block-compressed structure.

use vstd::prelude::*;
use vstd::layout::size_of;
use crate::errors::{ConstructionError, QueryError};
use crate::k2::{
    leaf_bits_of, mat_cell, mat_clone, mat_get, mat_grid, mat_height, mat_height_of, mat_width,
    mat_width_of, stem_bits_of, tree_cell, tree_from_matrix, tree_get, tree_leaf_bits,
    tree_leaf_len, tree_side, tree_stem_bits, tree_stem_len, MAX_BRANCH, MAX_SIDE,
};

verus! {

/// Bytes needed to hold `bits` packed bits, one bit per cell.
pub open spec fn packed_byte_count(bits: int) -> int {
    (bits + 7) / 8
}

/// A representation stands for a matrix snapshot when its dimensions match
/// and every in-bounds point query answers with that matrix's bit.
pub open spec fn represents<A: StructureAdapter>(a: A, m: k2_tree::matrix::BitMatrix) -> bool {
    &&& a.width() == mat_width(m)
    &&& a.height() == mat_height(m)
    &&& forall|x: int, y: int|
        0 <= x < mat_width(m) && 0 <= y < mat_height(m) ==> #[trigger] a.cell(x, y) == mat_cell(
            m,
            x,
            y,
        )
}

/// The three-operation capability contract the harness measures through:
/// build from a matrix snapshot, bounds-checked point query, and a byte-size
/// report that counts the full packed-bit storage, never less.
pub trait StructureAdapter: Sized {
    /// The representation's bookkeeping agrees with what it stands for.
    spec fn wf(&self) -> bool;

    /// Width of the represented matrix.
    spec fn width(&self) -> int;

    /// Height of the represented matrix.
    spec fn height(&self) -> int;

    /// One represented bit.
    spec fn cell(&self, x: int, y: int) -> bool;

    /// The exact byte accounting `size_in_bytes` reports.
    spec fn size_spec(&self) -> int;

    /// The packed-bit storage the size report may never undercut.
    spec fn storage_floor(&self) -> int;

    /// The byte footprint a representation built from this grid, these
    /// dimensions and these branching factors must report: a function of
    /// them alone, so equal builds report equal sizes.
    spec fn built_size(grid: Map<(int, int), bool>, w: int, h: int, stem_k: int, leaf_k: int)
        -> int;

    /// Builds the representation from a duplicate of the matrix snapshot;
    /// the caller keeps the original. Fails on a branching factor below two
    /// or a matrix with a zero dimension, in that order of checks.
    fn build(m: &k2_tree::matrix::BitMatrix, stem_k: usize, leaf_k: usize) -> (r: Result<
        Self,
        ConstructionError,
    >)
        requires
            mat_width(*m) <= MAX_SIDE as int,
            mat_height(*m) <= MAX_SIDE as int,
            stem_k <= MAX_BRANCH,
            leaf_k <= MAX_BRANCH,
        ensures
            r is Ok <==> (stem_k >= 2 && leaf_k >= 2 && mat_width(*m) >= 1 && mat_height(*m) >= 1),
            (stem_k < 2 || leaf_k < 2) ==> r == Err::<Self, ConstructionError>(
                ConstructionError::BranchFactorTooSmall,
            ),
            (stem_k >= 2 && leaf_k >= 2 && (mat_width(*m) < 1 || mat_height(*m) < 1)) ==> r
                == Err::<Self, ConstructionError>(ConstructionError::EmptyMatrix),
            r is Ok ==> r->Ok_0.wf() && r->Ok_0.width() == mat_width(*m) && r->Ok_0.height()
                == mat_height(*m),
            r is Ok ==> forall|x: int, y: int|
                0 <= x < mat_width(*m) && 0 <= y < mat_height(*m) ==> #[trigger] r->Ok_0.cell(x, y)
                    == mat_cell(*m, x, y),
            r is Ok ==> r->Ok_0.size_spec() == Self::built_size(
                mat_grid(*m),
                mat_width(*m),
                mat_height(*m),
                stem_k as int,
                leaf_k as int,
            ),
    ;

    /// Bounds-checked point query: the represented bit in range, an error at
    /// or beyond the width or height.
    fn query(&self, x: usize, y: usize) -> (r: Result<bool, QueryError>)
        requires
            self.wf(),
        ensures
            r is Ok <==> (x < self.width() && y < self.height()),
            r is Ok ==> r->Ok_0 == self.cell(x as int, y as int),
            r is Err ==> r->Err_0 == QueryError::OutOfBounds,
    ;

    /// Full footprint in bytes: the fixed descriptor plus all heap-resident
    /// packed-bit storage.
    fn size_in_bytes(&self) -> (r: u128)
        requires
            self.wf(),
        ensures
            r as int == self.size_spec(),
            r as int >= self.storage_floor(),
    ;
}

/// The dense baseline: the bit-packed matrix itself, kept as a duplicate
/// snapshot, with its dimensions and fixed descriptor size recorded.
#[derive(Debug)]
pub struct FlatRep {
    m: k2_tree::matrix::BitMatrix,
    w: usize,
    h: usize,
    descriptor: usize,
}

impl StructureAdapter for FlatRep {
    closed spec fn wf(&self) -> bool {
        &&& self.w as int == mat_width(self.m)
        &&& self.h as int == mat_height(self.m)
        &&& self.w <= MAX_SIDE
        &&& self.h <= MAX_SIDE
        &&& self.descriptor as nat == size_of::<k2_tree::matrix::BitMatrix>()
    }

    closed spec fn width(&self) -> int {
        mat_width(self.m)
    }

    closed spec fn height(&self) -> int {
        mat_height(self.m)
    }

    closed spec fn cell(&self, x: int, y: int) -> bool {
        mat_cell(self.m, x, y)
    }

    closed spec fn size_spec(&self) -> int {
        self.descriptor + packed_byte_count(mat_width(self.m) * mat_height(self.m))
    }

    closed spec fn storage_floor(&self) -> int {
        packed_byte_count(mat_width(self.m) * mat_height(self.m))
    }

    open spec fn built_size(
        grid: Map<(int, int), bool>,
        w: int,
        h: int,
        stem_k: int,
        leaf_k: int,
    ) -> int {
        size_of::<k2_tree::matrix::BitMatrix>() + packed_byte_count(w * h)
    }

    fn build(m: &k2_tree::matrix::BitMatrix, stem_k: usize, leaf_k: usize) -> (r: Result<
        Self,
        ConstructionError,
    >) {
        if stem_k < 2 || leaf_k < 2 {
            return Err(ConstructionError::BranchFactorTooSmall);
        }
        let w = mat_width_of(m);
        let h = mat_height_of(m);
        if w == 0 || h == 0 {
            return Err(ConstructionError::EmptyMatrix);
        }
        let copy = mat_clone(m);
        let descriptor = core::mem::size_of::<k2_tree::matrix::BitMatrix>();
        Ok(FlatRep { m: copy, w, h, descriptor })
    }

    fn query(&self, x: usize, y: usize) -> (r: Result<bool, QueryError>) {
        if x < self.w && y < self.h {
            Ok(mat_get(&self.m, x, y))
        } else {
            Err(QueryError::OutOfBounds)
        }
    }

    fn size_in_bytes(&self) -> (r: u128) {
        proof {
            assert(self.w as int * self.h as int <= MAX_SIDE as int * MAX_SIDE as int)
                by (nonlinear_arith)
                requires
                    0 <= self.w as int <= MAX_SIDE as int,
                    0 <= self.h as int <= MAX_SIDE as int,
            ;
        }
        let payload = (self.w as u128 * self.h as u128 + 7) / 8;
        self.descriptor as u128 + payload
    }
}

/// The compressed representation: an immutable tree snapshot with the
/// dimensions of the matrix it was built from and the counts of its packed
/// stem-bit and leaf-bit arrays recorded at build time.
#[derive(Debug)]
pub struct Compressed {
    tree: k2_tree::K2Tree,
    w: usize,
    h: usize,
    descriptor: usize,
    stem_bits: usize,
    leaf_bits: usize,
}

impl StructureAdapter for Compressed {
    closed spec fn wf(&self) -> bool {
        &&& self.w as int <= tree_side(self.tree)
        &&& self.h as int <= tree_side(self.tree)
        &&& self.stem_bits as int == tree_stem_bits(self.tree)
        &&& self.leaf_bits as int == tree_leaf_bits(self.tree)
        &&& self.stem_bits >= 4
        &&& self.descriptor as nat == size_of::<k2_tree::K2Tree>()
    }

    closed spec fn width(&self) -> int {
        self.w as int
    }

    closed spec fn height(&self) -> int {
        self.h as int
    }

    closed spec fn cell(&self, x: int, y: int) -> bool {
        tree_cell(self.tree, x, y)
    }

    closed spec fn size_spec(&self) -> int {
        self.descriptor + self.stem_bits + self.leaf_bits
    }

    closed spec fn storage_floor(&self) -> int {
        self.stem_bits + self.leaf_bits
    }

    open spec fn built_size(
        grid: Map<(int, int), bool>,
        w: int,
        h: int,
        stem_k: int,
        leaf_k: int,
    ) -> int {
        size_of::<k2_tree::K2Tree>() + stem_bits_of(grid, w, h, stem_k, leaf_k) + leaf_bits_of(
            grid,
            w,
            h,
            stem_k,
            leaf_k,
        )
    }

    fn build(m: &k2_tree::matrix::BitMatrix, stem_k: usize, leaf_k: usize) -> (r: Result<
        Self,
        ConstructionError,
    >) {
        if stem_k < 2 || leaf_k < 2 {
            return Err(ConstructionError::BranchFactorTooSmall);
        }
        let w = mat_width_of(m);
        let h = mat_height_of(m);
        if w == 0 || h == 0 {
            return Err(ConstructionError::EmptyMatrix);
        }
        let copy = mat_clone(m);
        let tree = match tree_from_matrix(copy, stem_k, leaf_k) {
            Ok(t) => t,
            Err(e) => {
                return Err(e);
            },
        };
        proof {
            assert(stem_k as int * stem_k as int >= 4) by (nonlinear_arith)
                requires
                    stem_k >= 2,
            ;
        }
        let descriptor = core::mem::size_of::<k2_tree::K2Tree>();
        let stem_bits = tree_stem_len(&tree);
        let leaf_bits = tree_leaf_len(&tree);
        Ok(Compressed { tree, w, h, descriptor, stem_bits, leaf_bits })
    }

    fn query(&self, x: usize, y: usize) -> (r: Result<bool, QueryError>) {
        if x < self.w && y < self.h {
            Ok(tree_get(&self.tree, x, y))
        } else {
            Err(QueryError::OutOfBounds)
        }
    }

    fn size_in_bytes(&self) -> (r: u128) {
        self.descriptor as u128 + self.stem_bits as u128 + self.leaf_bits as u128
    }
}

/// Walks every coordinate of the matrix until it meets (x, y), as a baseline
/// "manual" point read of the dense representation; false when out of range.
pub fn get_bit_manual(matrix: &k2_tree::matrix::BitMatrix, x: usize, y: usize) -> (r: bool)
    ensures
        r == (x < mat_width(*matrix) && y < mat_height(*matrix) && mat_cell(
            *matrix,
            x as int,
            y as int,
        )),
{
    let w = mat_width_of(matrix);
    let h = mat_height_of(matrix);
    let mut j: usize = 0;
    while j < h
        invariant
            j <= h,
            w == mat_width(*matrix),
            h == mat_height(*matrix),
            (x < w && y < h) ==> j <= y,
        decreases h - j,
    {
        let mut i: usize = 0;
        while i < w
            invariant
                i <= w,
                j < h,
                w == mat_width(*matrix),
                h == mat_height(*matrix),
                (x < w && y < h) ==> (j < y || (j == y && i <= x)),
            decreases w - i,
        {
            if i == x && j == y {
                return mat_get(matrix, i, j);
            }
            i = i + 1;
        }
        j = j + 1;
    }
    false
}

/// Cross-representation equivalence: two representations built from the same
/// matrix snapshot answer every in-bounds point query identically.
pub proof fn lemma_cross_representation_equivalence<A: StructureAdapter, B: StructureAdapter>(
    a: A,
    b: B,
    m: k2_tree::matrix::BitMatrix,
    x: int,
    y: int,
)
    requires
        represents(a, m),
        represents(b, m),
        0 <= x < mat_width(m),
        0 <= y < mat_height(m),
    ensures
        a.cell(x, y) == b.cell(x, y),
{
    assert(a.cell(x, y) == mat_cell(m, x, y));
    assert(b.cell(x, y) == mat_cell(m, x, y));
}

/// Round-trip: reading back every cell of a representation built from a
/// matrix reproduces that matrix exactly — no cell dropped, duplicated or
/// inverted.
pub proof fn lemma_round_trip<A: StructureAdapter>(a: A, m: k2_tree::matrix::BitMatrix)
    requires
        represents(a, m),
    ensures
        a.width() == mat_width(m),
        a.height() == mat_height(m),
        forall|x: int, y: int|
            0 <= x < mat_width(m) && 0 <= y < mat_height(m) ==> #[trigger] a.cell(x, y)
                == mat_cell(m, x, y),
{
}

/// Monotonic size lower bound: the compressed size report never undercuts
/// the packed stem/leaf storage, and a built tree keeps at least one root
/// stem block of four bits even for an all-false matrix.
pub proof fn lemma_compressed_size_floor(c: Compressed)
    requires
        c.wf(),
    ensures
        c.size_spec() >= c.storage_floor(),
        c.storage_floor() >= 4,
{
}

} // verus!
