use matmul::{assemble, compute_block, mat_mul, partition, MatMulError, PartialResult};

fn a() -> Vec<Vec<i32>> {
    vec![vec![1, 2], vec![3, 4], vec![5, 6]]
}

fn b() -> Vec<Vec<i32>> {
    vec![vec![7, 8, 9], vec![10, 11, 12]]
}

#[test]
fn worker_computes_the_rows_of_its_block() {
    assert_eq!(
        compute_block(&a(), &b(), 1, 3),
        PartialResult { start: 1, end: 3, rows: vec![vec![61, 68, 75], vec![95, 106, 117]] }
    );
    assert_eq!(
        compute_block(&a(), &b(), 0, 1),
        PartialResult { start: 0, end: 1, rows: vec![vec![27, 30, 33]] }
    );
}

#[test]
fn worker_with_an_empty_block_computes_nothing() {
    assert_eq!(compute_block(&a(), &b(), 2, 2), PartialResult { start: 2, end: 2, rows: vec![] });
}

#[test]
fn reports_in_order_are_assembled() {
    let parts = vec![compute_block(&a(), &b(), 0, 1), compute_block(&a(), &b(), 1, 3)];
    assert_eq!(assemble(3, &parts), Ok(mat_mul(&a(), &b())));
}

#[test]
fn reports_in_any_order_are_assembled() {
    let expected = mat_mul(&a(), &b());
    let orders: [[usize; 3]; 6] =
        [[0, 1, 2], [0, 2, 1], [1, 0, 2], [1, 2, 0], [2, 0, 1], [2, 1, 0]];
    for order in orders {
        let parts: Vec<PartialResult> =
            order.iter().map(|&th| compute_block(&a(), &b(), th, th + 1)).collect();
        assert_eq!(assemble(3, &parts), Ok(expected.clone()));
    }
}

#[test]
fn reports_of_a_plan_in_reverse_order_are_assembled() {
    let m1 = vec![vec![2; 9]; 9];
    let m2 = vec![vec![3; 9]; 9];
    let mut parts: Vec<PartialResult> = partition(9, 4)
        .iter()
        .map(|block| compute_block(&m1, &m2, block.start, block.end))
        .collect();
    parts.reverse();
    assert_eq!(assemble(9, &parts), Ok(vec![vec![54; 9]; 9]));
}

#[test]
fn assembled_rows_are_the_reported_rows() {
    let parts = vec![
        PartialResult { start: 2, end: 3, rows: vec![vec![30]] },
        PartialResult { start: 0, end: 2, rows: vec![vec![10], vec![20]] },
    ];
    assert_eq!(assemble(3, &parts), Ok(vec![vec![10], vec![20], vec![30]]));
}

#[test]
fn empty_reports_are_accepted() {
    let parts = vec![
        PartialResult { start: 0, end: 0, rows: vec![] },
        PartialResult { start: 0, end: 1, rows: vec![vec![5]] },
        PartialResult { start: 1, end: 1, rows: vec![] },
    ];
    assert_eq!(assemble(1, &parts), Ok(vec![vec![5]]));
}

#[test]
fn no_rows_and_no_reports_give_the_empty_matrix() {
    let parts: Vec<PartialResult> = Vec::new();
    assert_eq!(assemble(0, &parts), Ok(Vec::new()));
}

#[test]
fn missing_report_is_a_worker_failure() {
    let parts = vec![compute_block(&a(), &b(), 0, 1), compute_block(&a(), &b(), 2, 3)];
    assert_eq!(assemble(3, &parts), Err(MatMulError::WorkerFailure));
    let none: Vec<PartialResult> = Vec::new();
    assert_eq!(assemble(3, &none), Err(MatMulError::WorkerFailure));
}

#[test]
fn repeated_report_is_a_worker_failure() {
    let parts = vec![
        compute_block(&a(), &b(), 0, 2),
        compute_block(&a(), &b(), 2, 3),
        compute_block(&a(), &b(), 0, 2),
    ];
    assert_eq!(assemble(3, &parts), Err(MatMulError::WorkerFailure));
}

#[test]
fn overlapping_reports_are_a_worker_failure() {
    let parts = vec![compute_block(&a(), &b(), 0, 2), compute_block(&a(), &b(), 1, 3)];
    assert_eq!(assemble(3, &parts), Err(MatMulError::WorkerFailure));
}

#[test]
fn report_beyond_the_output_is_a_worker_failure() {
    let parts = vec![PartialResult { start: 0, end: 2, rows: vec![vec![1], vec![2]] }];
    assert_eq!(assemble(1, &parts), Err(MatMulError::WorkerFailure));
}

#[test]
fn report_with_too_few_rows_is_a_worker_failure() {
    let parts = vec![PartialResult { start: 0, end: 2, rows: vec![vec![1]] }];
    assert_eq!(assemble(2, &parts), Err(MatMulError::WorkerFailure));
}

#[test]
fn report_with_too_many_rows_is_a_worker_failure() {
    let parts = vec![PartialResult { start: 0, end: 1, rows: vec![vec![1], vec![2]] }];
    assert_eq!(assemble(1, &parts), Err(MatMulError::WorkerFailure));
}

#[test]
fn report_that_ends_before_it_starts_is_a_worker_failure() {
    let parts = vec![
        PartialResult { start: 0, end: 1, rows: vec![vec![1]] },
        PartialResult { start: 1, end: 0, rows: vec![] },
    ];
    assert_eq!(assemble(1, &parts), Err(MatMulError::WorkerFailure));
}
