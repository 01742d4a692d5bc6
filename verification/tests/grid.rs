use tseries::grid::{candidate_pairs, decode_pair, select_pair};

#[test]
fn candidate_pairs_run_row_by_row() {
    assert_eq!(
        candidate_pairs(2, 1),
        vec![(0, 0), (0, 1), (1, 0), (1, 1), (2, 0), (2, 1)]
    );
}

#[test]
fn candidate_pairs_of_the_smallest_grid() {
    assert_eq!(candidate_pairs(0, 0), vec![(0, 0)]);
}

#[test]
fn candidate_pairs_of_one_row_and_of_one_column() {
    assert_eq!(candidate_pairs(0, 3), vec![(0, 0), (0, 1), (0, 2), (0, 3)]);
    assert_eq!(candidate_pairs(3, 0), vec![(0, 0), (1, 0), (2, 0), (3, 0)]);
}

#[test]
fn candidate_pairs_count_is_the_product_of_the_sides() {
    assert_eq!(candidate_pairs(4, 6).len(), 35);
}

#[test]
fn decode_pair_divides_by_the_row_length() {
    assert_eq!(decode_pair(0, 2), (0, 0));
    assert_eq!(decode_pair(2, 2), (0, 2));
    assert_eq!(decode_pair(3, 2), (1, 0));
    assert_eq!(decode_pair(7, 2), (2, 1));
    assert_eq!(decode_pair(5, 0), (5, 0));
}

#[test]
fn decode_pair_reads_back_every_position_of_the_grid() {
    for max_ar in 0..4 {
        for max_ma in 0..4 {
            let grid = candidate_pairs(max_ar, max_ma);
            for (index, pair) in grid.iter().enumerate() {
                assert_eq!(decode_pair(index, max_ma), *pair);
                assert_eq!(pair.0 * (max_ma + 1) + pair.1, index);
            }
        }
    }
}

#[test]
fn select_pair_names_the_pair_with_the_lowest_score() {
    // Grid for max_ar = 1, max_ma = 2: (0,0) (0,1) (0,2) (1,0) (1,1) (1,2).
    let scores = vec![Some(9), Some(8), Some(7), Some(6), Some(1), Some(6)];
    assert_eq!(select_pair(&scores, 2), (1, 1));
}

#[test]
fn select_pair_is_not_transposed() {
    // With three moving-average orders per row, position 2 is (0, 2);
    // reading it column by column would give (2, 0) or (1, 0).
    let scores = vec![Some(5), Some(5), Some(1), Some(5), Some(5), Some(5)];
    assert_eq!(select_pair(&scores, 2), (0, 2));
    // With two per row, the same position is (1, 0).
    assert_eq!(select_pair(&scores, 1), (1, 0));
}

#[test]
fn select_pair_keeps_the_pair_tried_first_on_a_tie() {
    let scores = vec![Some(4), Some(2), Some(2), Some(2)];
    assert_eq!(select_pair(&scores, 1), (0, 1));
}

#[test]
fn select_pair_skips_failed_candidates() {
    let scores = vec![None, None, Some(30), Some(20)];
    assert_eq!(select_pair(&scores, 1), (1, 1));
}

#[test]
fn select_pair_without_any_score_is_the_origin() {
    let failed: Vec<Option<i64>> = vec![None, None, None, None];
    assert_eq!(select_pair(&failed, 1), (0, 0));
    let empty: Vec<Option<i64>> = Vec::new();
    assert_eq!(select_pair(&empty, 3), (0, 0));
}

#[test]
fn select_pair_agrees_with_the_enumeration() {
    let max_ar = 3;
    let max_ma = 2;
    let grid = candidate_pairs(max_ar, max_ma);
    for winner in 0..grid.len() {
        let scores: Vec<Option<i64>> =
            (0..grid.len()).map(|i| Some(if i == winner { -1 } else { 10 })).collect();
        assert_eq!(select_pair(&scores, max_ma), grid[winner]);
    }
}
