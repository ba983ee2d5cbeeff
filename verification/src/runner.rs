//! The trial protocol: one build-and-measure cycle per matrix dimension.
//! Each trial regenerates its own workload, builds both representations
//! from the same snapshot, and reports one record; any construction failure
//! is handed straight back, so a caller can abort the whole sweep as the
//! failure policy demands.

use vstd::prelude::*;
use vstd::layout::size_of;
use crate::adapter::{
    lemma_compressed_size_floor, lemma_cross_representation_equivalence, packed_byte_count,
    represents, Compressed, FlatRep, StructureAdapter,
};
use crate::clock::{clock_elapsed, clock_now, duration_nanos};
use crate::errors::ConstructionError;
use crate::k2::{leaf_bits_of, stem_bits_of, MAX_SIDE};
use crate::rng::draw_below;
use crate::workload::{generate_dense, grid_of_draws};

verus! {

/// Branching factor of the compressed structure's stem levels, fixed.
pub const STEM_K: usize = 2;

/// Branching factor of the compressed structure's leaf level, fixed.
pub const LEAF_K: usize = 2;

/// One trial's outcome: the matrix dimension and one metric per
/// representation — nanoseconds for the timing study, bytes for the space
/// study — flat matrix first, compressed structure second.
#[derive(Clone, Copy, Debug, PartialEq, Eq, Structural)]
pub struct TrialRecord {
    /// The matrix dimension the trial ran at.
    pub n: usize,
    /// The flat matrix's metric.
    pub flat_metric: u128,
    /// The compressed structure's metric.
    pub compressed_metric: u128,
}

/// The fixed geometric size sweep, strictly increasing, iterated once.
pub fn sweep_sizes() -> (r: Vec<usize>)
    ensures
        r@ =~= seq![4usize, 8, 16, 32, 64, 128, 256, 512, 1024, 2048, 4096],
        forall|i: int| 0 <= i < r@.len() ==> #[trigger] r@[i] <= MAX_SIDE,
{
    let sizes: Vec<usize> = vec![4, 8, 16, 32, 64, 128, 256, 512, 1024, 2048, 4096];
    proof {
        assert(sizes@ =~= seq![4usize, 8, 16, 32, 64, 128, 256, 512, 1024, 2048, 4096]);
    }
    sizes
}

/// One timing trial: build both representations from the same dense-model
/// workload, pick one uniformly random in-bounds coordinate, and time
/// exactly one point query against each on the monotonic clock. The two
/// answers are proven equal before the times are reported.
pub fn run_query_trial(n: usize, draws: &Vec<bool>, rng: &mut rand::rngs::ThreadRng) -> (r: Result<
    TrialRecord,
    ConstructionError,
>)
    requires
        n <= MAX_SIDE,
        draws@.len() == n as int * n as int,
    ensures
        r is Ok <==> n >= 1,
        r is Err ==> r->Err_0 == ConstructionError::EmptyMatrix,
        r is Ok ==> r->Ok_0.n == n,
{
    let m = match generate_dense(n, draws) {
        Ok(m) => m,
        Err(e) => {
            return Err(e);
        },
    };
    let flat = match FlatRep::build(&m, STEM_K, LEAF_K) {
        Ok(f) => f,
        Err(e) => {
            return Err(e);
        },
    };
    let comp = match Compressed::build(&m, STEM_K, LEAF_K) {
        Ok(c) => c,
        Err(e) => {
            return Err(e);
        },
    };
    let x = draw_below(rng, n);
    let y = draw_below(rng, n);

    let flat_start = clock_now();
    let flat_answer = flat.query(x, y);
    let flat_span = clock_elapsed(&flat_start);

    let comp_start = clock_now();
    let comp_answer = comp.query(x, y);
    let comp_span = clock_elapsed(&comp_start);

    proof {
        assert(represents(flat, m));
        assert(represents(comp, m));
        lemma_cross_representation_equivalence(flat, comp, m, x as int, y as int);
        assert(flat_answer == comp_answer);
    }
    let flat_metric = duration_nanos(&flat_span);
    let compressed_metric = duration_nanos(&comp_span);
    Ok(TrialRecord { n, flat_metric, compressed_metric })
}

/// One space trial: build both representations from the same dense-model
/// workload and report each one's full byte footprint, exactly: for the
/// flat matrix the fixed descriptor plus the packed payload of n*n bits;
/// for the compressed structure the fixed descriptor plus its packed stem
/// and leaf array lengths, which are functions of the workload grid and
/// the fixed branching factors — so equal draws give equal reports.
pub fn run_space_trial(n: usize, draws: &Vec<bool>) -> (r: Result<TrialRecord, ConstructionError>)
    requires
        n <= MAX_SIDE,
        draws@.len() == n as int * n as int,
    ensures
        r is Ok <==> n >= 1,
        r is Err ==> r->Err_0 == ConstructionError::EmptyMatrix,
        r is Ok ==> ({
            let rec = r->Ok_0;
            &&& rec.n == n
            &&& rec.flat_metric as int == size_of::<k2_tree::matrix::BitMatrix>()
                + packed_byte_count(n as int * n as int)
            &&& rec.compressed_metric as int == size_of::<k2_tree::K2Tree>() + stem_bits_of(
                grid_of_draws(n as int, draws@),
                n as int,
                n as int,
                STEM_K as int,
                LEAF_K as int,
            ) + leaf_bits_of(
                grid_of_draws(n as int, draws@),
                n as int,
                n as int,
                STEM_K as int,
                LEAF_K as int,
            )
            &&& rec.flat_metric >= packed_byte_count(n as int * n as int)
            &&& rec.compressed_metric >= 4
        }),
{
    let m = match generate_dense(n, draws) {
        Ok(m) => m,
        Err(e) => {
            return Err(e);
        },
    };
    let flat = match FlatRep::build(&m, STEM_K, LEAF_K) {
        Ok(f) => f,
        Err(e) => {
            return Err(e);
        },
    };
    let comp = match Compressed::build(&m, STEM_K, LEAF_K) {
        Ok(c) => c,
        Err(e) => {
            return Err(e);
        },
    };
    let flat_metric = flat.size_in_bytes();
    let compressed_metric = comp.size_in_bytes();
    proof {
        lemma_compressed_size_floor(comp);
        assert(flat.size_spec() == FlatRep::built_size(
            grid_of_draws(n as int, draws@),
            n as int,
            n as int,
            STEM_K as int,
            LEAF_K as int,
        ));
        assert(comp.size_spec() == Compressed::built_size(
            grid_of_draws(n as int, draws@),
            n as int,
            n as int,
            STEM_K as int,
            LEAF_K as int,
        ));
    }
    Ok(TrialRecord { n, flat_metric, compressed_metric })
}

} // verus!
