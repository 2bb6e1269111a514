use hypersheet::helpers::{Array2DUtils, ArrayUtils};

#[test]
fn to_2d_wraps_each_element() {
    let v = vec![10, 20, 30];
    let grid = v.to_2d();
    assert_eq!(grid.len(), 3);
    assert_eq!(grid[2].len(), 1);
    assert_eq!(*grid[0][0], 10);
    assert_eq!(*grid[1][0], 20);
}

#[test]
fn reduce_folds_left_to_right() {
    let v = vec![1u64, 2, 3, 4];
    let sum = v.reduce(|a, b, _i, _arr| a + b, 0, false);
    assert_eq!(sum, 10);
    // the first element seeds the fold in place of the accumulator
    let seeded = v.reduce(|a, b, _i, _arr| a + b, 100, true);
    assert_eq!(seeded, 10);
    let with_acc = v.reduce(|a, b, _i, _arr| a + b, 100, false);
    assert_eq!(with_acc, 110);
    // the combiner sees each element's position
    let weighted = v.reduce(|a, b, i, _arr| a + b * u64::from(i), 0, false);
    assert_eq!(weighted, 20);
    let empty: Vec<u64> = Vec::new();
    assert_eq!(empty.reduce(|a, b, _i, _arr| a + b, 42, true), 42);
}

#[test]
fn pivot_transposes_with_ragged_rows() {
    let grid = vec![vec![1, 2, 3], vec![4, 5], vec![6, 7, 8]];
    let p = grid.pivot();
    assert_eq!(p.len(), 3);
    assert_eq!(p[0].len(), 3);
    assert_eq!(p[0][0], Some(&1));
    assert_eq!(p[0][1], Some(&4));
    assert_eq!(p[1][1], Some(&5));
    assert_eq!(p[2][1], None);
    assert_eq!(p[2][2], Some(&8));
    let empty: Vec<Vec<i32>> = Vec::new();
    let ep = empty.pivot();
    assert_eq!(ep.len(), 1);
    assert!(ep[0].is_empty());
}
