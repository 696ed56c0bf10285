use matmul::{check_dimensions, compute_row, dot_entry, MatMulError};

#[test]
fn square_pair_is_accepted() {
    let a = vec![vec![1, 2], vec![3, 4]];
    assert_eq!(check_dimensions(&a, &a), Ok(()));
}

#[test]
fn rectangular_pair_is_accepted() {
    let a = vec![vec![1, 2, 3], vec![4, 5, 6]];
    let b = vec![vec![1], vec![2], vec![3]];
    assert_eq!(check_dimensions(&a, &b), Ok(()));
}

#[test]
fn empty_first_matrix_is_empty_input() {
    let a: Vec<Vec<i32>> = Vec::new();
    let b = vec![vec![1]];
    assert_eq!(check_dimensions(&a, &b), Err(MatMulError::EmptyInput));
}

#[test]
fn empty_second_matrix_is_empty_input() {
    let a = vec![vec![1]];
    let b: Vec<Vec<i32>> = Vec::new();
    assert_eq!(check_dimensions(&a, &b), Err(MatMulError::EmptyInput));
}

#[test]
fn empty_input_is_reported_before_a_mismatch() {
    let ragged = vec![vec![1, 2], vec![3]];
    let none: Vec<Vec<i32>> = Vec::new();
    assert_eq!(check_dimensions(&ragged, &none), Err(MatMulError::EmptyInput));
    assert_eq!(check_dimensions(&none, &ragged), Err(MatMulError::EmptyInput));
}

#[test]
fn two_by_three_times_two_by_two_is_a_mismatch() {
    let a = vec![vec![1, 2, 3], vec![4, 5, 6]];
    let b = vec![vec![1, 2], vec![3, 4]];
    assert_eq!(check_dimensions(&a, &b), Err(MatMulError::DimensionMismatch));
}

#[test]
fn ragged_first_matrix_is_a_mismatch() {
    let a = vec![vec![1, 2], vec![3]];
    let b = vec![vec![1, 2], vec![3, 4]];
    assert_eq!(check_dimensions(&a, &b), Err(MatMulError::DimensionMismatch));
}

#[test]
fn ragged_second_matrix_is_a_mismatch() {
    let a = vec![vec![1, 2], vec![3, 4]];
    let b = vec![vec![1, 2], vec![3, 4, 5]];
    assert_eq!(check_dimensions(&a, &b), Err(MatMulError::DimensionMismatch));
}

#[test]
fn row_without_columns_is_a_mismatch() {
    let a: Vec<Vec<i32>> = vec![vec![]];
    let b = vec![vec![1]];
    assert_eq!(check_dimensions(&a, &b), Err(MatMulError::DimensionMismatch));
}

#[test]
fn single_entry_of_the_product() {
    let a = vec![vec![1, 2], vec![3, 4]];
    let b = vec![vec![5, 6], vec![7, 8]];
    assert_eq!(dot_entry(&a, &b, 0, 0), 19);
    assert_eq!(dot_entry(&a, &b, 0, 1), 22);
    assert_eq!(dot_entry(&a, &b, 1, 0), 43);
    assert_eq!(dot_entry(&a, &b, 1, 1), 50);
}

#[test]
fn single_row_of_the_product() {
    let a = vec![vec![1, 2, 3], vec![4, 5, 6]];
    let b = vec![vec![7, 8], vec![9, 10], vec![11, 12]];
    assert_eq!(compute_row(&a, &b, 0), vec![58, 64]);
    assert_eq!(compute_row(&a, &b, 1), vec![139, 154]);
}
