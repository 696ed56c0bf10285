use matmul::{get_random_matrix, VALUE_LIMIT};

#[test]
fn generated_matrix_has_the_requested_shape() {
    let m = get_random_matrix(7, 5);
    assert_eq!(m.len(), 7);
    assert!(m.iter().all(|row| row.len() == 5));
}

#[test]
fn generated_entries_are_within_the_limit() {
    assert_eq!(VALUE_LIMIT, 1000);
    let m = get_random_matrix(30, 30);
    assert!(m.iter().all(|row| row.iter().all(|&v| 0 <= v && v < 1000)));
}

#[test]
fn generated_matrix_without_rows_is_empty() {
    let m = get_random_matrix(0, 3);
    assert_eq!(m, Vec::<Vec<i32>>::new());
}

#[test]
fn generated_matrix_without_columns_has_empty_rows() {
    let m = get_random_matrix(3, 0);
    assert_eq!(m, vec![Vec::<i32>::new(); 3]);
}

#[test]
fn generated_entries_are_not_the_lower_bound_throughout() {
    let m = get_random_matrix(20, 20);
    assert!(m.iter().any(|row| row.iter().any(|&v| v != 0)));
}

#[test]
fn generated_entries_vary() {
    let m = get_random_matrix(20, 20);
    let first = m[0][0];
    assert!(m.iter().any(|row| row.iter().any(|&v| v != first)));
}
