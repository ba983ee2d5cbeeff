use k2bench::adapter::{get_bit_manual, Compressed, FlatRep, StructureAdapter};
use k2bench::errors::{ConstructionError, QueryError};
use k2bench::k2::{mat_set, new_matrix};
use k2bench::render::{
    appended_table, data_rows, format_bit_blocks, fresh_table, header_row, matrix_rows_text,
    push_decimal, record_row,
};
use k2bench::rng::fresh_rng;
use k2bench::runner::{run_query_trial, run_space_trial, sweep_sizes, TrialRecord};
use k2bench::workload::{generate_dense, generate_sparse};

fn matrix_with_points(n: usize, points: &[(usize, usize)]) -> k2_tree::matrix::BitMatrix {
    let mut m = new_matrix(n, n);
    for &(x, y) in points {
        mat_set(&mut m, x, y, true);
    }
    m
}

const SCENARIO_A: [(usize, usize); 10] = [
    (4, 0),
    (6, 0),
    (6, 1),
    (7, 1),
    (6, 3),
    (0, 4),
    (2, 4),
    (0, 5),
    (6, 4),
    (7, 4),
];

const SCENARIO_B: [(usize, usize); 6] = [(0, 0), (0, 1), (1, 1), (2, 2), (2, 3), (3, 2)];

#[test]
fn scenario_a_queries() {
    let m = matrix_with_points(8, &SCENARIO_A);
    let flat = FlatRep::build(&m, 2, 2).unwrap();
    let comp = Compressed::build(&m, 2, 2).unwrap();
    assert_eq!(flat.query(6, 1).unwrap(), true);
    assert_eq!(comp.query(6, 1).unwrap(), true);
    assert_eq!(flat.query(0, 0).unwrap(), false);
    assert_eq!(comp.query(0, 0).unwrap(), false);
}

#[test]
fn cross_representation_equivalence_every_cell() {
    let m = matrix_with_points(8, &SCENARIO_A);
    let flat = FlatRep::build(&m, 2, 2).unwrap();
    let comp = Compressed::build(&m, 2, 2).unwrap();
    for y in 0..8 {
        for x in 0..8 {
            assert_eq!(flat.query(x, y).unwrap(), comp.query(x, y).unwrap());
        }
    }
}

#[test]
fn round_trip_reproduces_matrix() {
    let m = matrix_with_points(8, &SCENARIO_A);
    let comp = Compressed::build(&m, 2, 2).unwrap();
    for y in 0..8 {
        for x in 0..8 {
            let expected = SCENARIO_A.iter().any(|&p| p == (x, y));
            assert_eq!(comp.query(x, y).unwrap(), expected);
            assert_eq!(get_bit_manual(&m, x, y), expected);
        }
    }
}

#[test]
fn scenario_b_sizes() {
    let m = matrix_with_points(4, &SCENARIO_B);
    let flat = FlatRep::build(&m, 2, 2).unwrap();
    let comp = Compressed::build(&m, 2, 2).unwrap();

    // The compressed size comes from the summed packed stem/leaf bit
    // arrays, not a placeholder: rebuild the same tree directly and
    // account for it the same way.
    let tree = k2_tree::K2Tree::from_matrix(m.clone(), 2, 2).unwrap();
    let expected =
        std::mem::size_of_val(&tree) as u128 + tree.stems.len() as u128 + tree.leaves.len() as u128;
    let comp_size = comp.size_in_bytes();
    assert!(comp_size > 0);
    assert_eq!(comp_size, expected);

    // The flat payload for 4x4 is ceil(16/8) = 2 bytes beyond the fixed
    // descriptor, and differs from the compressed accounting here.
    let flat_expected = std::mem::size_of_val(&m) as u128 + 2;
    assert_eq!(flat.size_in_bytes(), flat_expected);
    assert_ne!(comp_size, 2);
}

#[test]
fn all_false_matrix_keeps_size_floor() {
    let m = new_matrix(4, 4);
    let comp = Compressed::build(&m, 2, 2).unwrap();
    let tree = k2_tree::K2Tree::from_matrix(m.clone(), 2, 2).unwrap();
    let floor = tree.stems.len() as u128 + tree.leaves.len() as u128;
    assert!(comp.size_in_bytes() >= floor);
    assert!(floor >= 4);
}

#[test]
fn build_rejects_small_branch_factor() {
    let m = new_matrix(4, 4);
    assert_eq!(
        FlatRep::build(&m, 1, 2).unwrap_err(),
        ConstructionError::BranchFactorTooSmall
    );
    assert_eq!(
        Compressed::build(&m, 2, 1).unwrap_err(),
        ConstructionError::BranchFactorTooSmall
    );
}

#[test]
fn build_rejects_empty_matrix() {
    let m = new_matrix(0, 4);
    assert_eq!(
        FlatRep::build(&m, 2, 2).unwrap_err(),
        ConstructionError::EmptyMatrix
    );
    assert_eq!(
        Compressed::build(&m, 2, 2).unwrap_err(),
        ConstructionError::EmptyMatrix
    );
}

#[test]
fn query_out_of_bounds_errors() {
    let m = matrix_with_points(4, &SCENARIO_B);
    let flat = FlatRep::build(&m, 2, 2).unwrap();
    let comp = Compressed::build(&m, 2, 2).unwrap();
    assert_eq!(flat.query(4, 0).unwrap_err(), QueryError::OutOfBounds);
    assert_eq!(flat.query(0, 4).unwrap_err(), QueryError::OutOfBounds);
    assert_eq!(comp.query(4, 0).unwrap_err(), QueryError::OutOfBounds);
    assert_eq!(comp.query(0, 7).unwrap_err(), QueryError::OutOfBounds);
}

#[test]
fn get_bit_manual_out_of_range_is_false() {
    let m = matrix_with_points(4, &SCENARIO_B);
    assert_eq!(get_bit_manual(&m, 0, 0), true);
    assert_eq!(get_bit_manual(&m, 3, 3), false);
    assert_eq!(get_bit_manual(&m, 4, 0), false);
    assert_eq!(get_bit_manual(&m, 0, 100), false);
}

#[test]
fn generate_dense_places_each_draw() {
    let n = 3;
    let draws = vec![true, false, false, false, true, false, false, false, true];
    let m = generate_dense(n, &draws).unwrap();
    for y in 0..n {
        for x in 0..n {
            assert_eq!(get_bit_manual(&m, x, y), draws[y * n + x]);
        }
    }
}

#[test]
fn generate_dense_rejects_zero_dimension() {
    let draws: Vec<bool> = Vec::new();
    assert_eq!(
        generate_dense(0, &draws).unwrap_err(),
        ConstructionError::EmptyMatrix
    );
}

#[test]
fn generate_sparse_sets_exactly_the_drawn_points() {
    let mut rng = fresh_rng();
    let (m, pts) = generate_sparse(16, &mut rng).unwrap();
    assert_eq!(pts.len(), 5);
    let mut true_cells = 0;
    for y in 0..16 {
        for x in 0..16 {
            let set = get_bit_manual(&m, x, y);
            if set {
                true_cells += 1;
            }
            assert_eq!(set, pts.contains(&(x, y)));
        }
    }
    assert!(true_cells <= 5);
    assert!(true_cells >= 1);
    for &(x, y) in &pts {
        assert!(x < 16 && y < 16);
    }
}

#[test]
fn generate_sparse_rejects_zero_dimension() {
    let mut rng = fresh_rng();
    assert_eq!(
        generate_sparse(0, &mut rng).unwrap_err(),
        ConstructionError::EmptyMatrix
    );
}

#[test]
fn space_trial_reports_both_footprints() {
    let n = 4;
    let draws = vec![false; 16];
    let rec = run_space_trial(n, &draws).unwrap();
    assert_eq!(rec.n, 4);
    assert!(rec.flat_metric >= 2);
    assert!(rec.compressed_metric >= 4);
}

fn scenario_b_draws() -> Vec<bool> {
    let set = [0usize, 4, 5, 10, 11, 14];
    (0..16).map(|i| set.contains(&i)).collect()
}

#[test]
fn space_trial_reports_exact_footprints() {
    let draws = scenario_b_draws();
    let rec = run_space_trial(4, &draws).unwrap();

    // Flat: the fixed descriptor plus ceil(16/8) = 2 packed payload bytes.
    let flat_expected = std::mem::size_of::<k2_tree::matrix::BitMatrix>() as u128 + 2;
    assert_eq!(rec.flat_metric, flat_expected);

    // Compressed: the fixed descriptor plus the summed packed stem/leaf
    // array lengths of the very tree the trial builds.
    let m = generate_dense(4, &draws).unwrap();
    let tree = k2_tree::K2Tree::from_matrix(m.clone(), 2, 2).unwrap();
    let comp_expected = std::mem::size_of::<k2_tree::K2Tree>() as u128
        + tree.stems.len() as u128
        + tree.leaves.len() as u128;
    assert_eq!(rec.compressed_metric, comp_expected);
    assert_ne!(rec.compressed_metric, rec.flat_metric);
}

#[test]
fn space_trial_is_deterministic_in_the_draws() {
    let draws = scenario_b_draws();
    let first = run_space_trial(4, &draws).unwrap();
    let second = run_space_trial(4, &draws).unwrap();
    assert_eq!(first, second);
}

#[test]
fn matrix_rows_render_as_digit_lines() {
    let m = matrix_with_points(4, &SCENARIO_B);
    assert_eq!(matrix_rows_text(&m), b"1000\n1100\n0011\n0010\n".to_vec());
}

#[test]
fn query_trial_reports_the_dimension() {
    let n = 8;
    let draws: Vec<bool> = (0..64).map(|i| i % 3 == 0).collect();
    let mut rng = fresh_rng();
    let rec = run_query_trial(n, &draws, &mut rng).unwrap();
    assert_eq!(rec.n, 8);
}

#[test]
fn trial_rejects_zero_dimension() {
    let draws: Vec<bool> = Vec::new();
    assert_eq!(
        run_space_trial(0, &draws).unwrap_err(),
        ConstructionError::EmptyMatrix
    );
    let mut rng = fresh_rng();
    assert_eq!(
        run_query_trial(0, &draws, &mut rng).unwrap_err(),
        ConstructionError::EmptyMatrix
    );
}

#[test]
fn sweep_is_the_fixed_geometric_progression() {
    let sizes = sweep_sizes();
    assert_eq!(
        sizes,
        vec![4, 8, 16, 32, 64, 128, 256, 512, 1024, 2048, 4096]
    );
}

#[test]
fn header_row_text() {
    assert_eq!(header_row(), b"n,bitmatrix,k2tree".to_vec());
}

#[test]
fn record_row_renders_decimal_fields() {
    let rec = TrialRecord { n: 4, flat_metric: 123, compressed_metric: 0 };
    assert_eq!(record_row(&rec), b"4,123,0".to_vec());
}

#[test]
fn push_decimal_renders_the_largest_value() {
    let mut out = Vec::new();
    push_decimal(&mut out, u128::MAX);
    assert_eq!(out, b"340282366920938463463374607431768211455".to_vec());
}

#[test]
fn data_rows_render_in_call_order() {
    let recs = vec![
        TrialRecord { n: 4, flat_metric: 10, compressed_metric: 20 },
        TrialRecord { n: 8, flat_metric: 30, compressed_metric: 40 },
    ];
    assert_eq!(data_rows(&recs), b"4,10,20\n8,30,40\n".to_vec());
}

#[test]
fn append_twice_keeps_one_header_and_all_rows() {
    let recs = vec![
        TrialRecord { n: 4, flat_metric: 1, compressed_metric: 2 },
        TrialRecord { n: 8, flat_metric: 3, compressed_metric: 4 },
    ];
    let first = fresh_table(&recs);
    let second = appended_table(&first, &recs);
    assert_eq!(
        second,
        b"n,bitmatrix,k2tree\n4,1,2\n8,3,4\n4,1,2\n8,3,4\n".to_vec()
    );
    let header_lines = second
        .split(|&b| b == b'\n')
        .filter(|line| *line == b"n,bitmatrix,k2tree")
        .count();
    assert_eq!(header_lines, 1);
    let data_lines = second.split(|&b| b == b'\n').filter(|l| !l.is_empty()).count() - 1;
    assert_eq!(data_lines, 2 * recs.len());
}

#[test]
fn bit_blocks_group_and_drop_the_remainder() {
    let bits = vec![true, false, false, true, false, true];
    assert_eq!(format_bit_blocks(&bits, 2), b"10, 01, 01".to_vec());
    assert_eq!(format_bit_blocks(&bits, 4), b"1001".to_vec());
    let none: Vec<bool> = Vec::new();
    assert_eq!(format_bit_blocks(&none, 4), Vec::<u8>::new());
}
