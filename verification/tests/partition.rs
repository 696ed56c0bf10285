use matmul::{
    partition, plan_blocks, plan_machine_blocks, row_block, MatMulError, RowBlock,
};

#[test]
fn ten_rows_among_three_workers() {
    assert_eq!(row_block(0, 10, 3), RowBlock { start: 0, end: 3 });
    assert_eq!(row_block(1, 10, 3), RowBlock { start: 3, end: 6 });
    assert_eq!(row_block(2, 10, 3), RowBlock { start: 6, end: 10 });
}

#[test]
fn ten_rows_among_four_workers() {
    assert_eq!(
        partition(10, 4),
        vec![
            RowBlock { start: 0, end: 2 },
            RowBlock { start: 2, end: 5 },
            RowBlock { start: 5, end: 7 },
            RowBlock { start: 7, end: 10 },
        ]
    );
}

#[test]
fn one_worker_takes_every_row() {
    assert_eq!(partition(7, 1), vec![RowBlock { start: 0, end: 7 }]);
}

#[test]
fn equal_blocks_where_the_workers_divide_the_rows() {
    assert_eq!(
        partition(8, 4),
        vec![
            RowBlock { start: 0, end: 2 },
            RowBlock { start: 2, end: 4 },
            RowBlock { start: 4, end: 6 },
            RowBlock { start: 6, end: 8 },
        ]
    );
}

#[test]
fn more_workers_than_rows_leaves_blocks_empty() {
    assert_eq!(
        partition(2, 4),
        vec![
            RowBlock { start: 0, end: 0 },
            RowBlock { start: 0, end: 1 },
            RowBlock { start: 1, end: 1 },
            RowBlock { start: 1, end: 2 },
        ]
    );
}

#[test]
fn no_rows_gives_empty_blocks() {
    assert_eq!(
        partition(0, 3),
        vec![
            RowBlock { start: 0, end: 0 },
            RowBlock { start: 0, end: 0 },
            RowBlock { start: 0, end: 0 },
        ]
    );
}

#[test]
fn largest_counts_do_not_overflow() {
    let top = usize::MAX;
    assert_eq!(row_block(top - 1, top, top), RowBlock { start: top - 1, end: top });
    assert_eq!(row_block(0, top, top), RowBlock { start: 0, end: 1 });
    assert_eq!(row_block(1, top, 2), RowBlock { start: top / 2, end: top });
}

#[test]
fn blocks_cover_every_row_exactly_once() {
    for n in 0..40usize {
        for workers in 1..20usize {
            let blocks = partition(n, workers);
            assert_eq!(blocks.len(), workers);
            let mut seen = vec![0u32; n];
            for block in &blocks {
                assert!(block.start <= block.end && block.end <= n);
                for i in block.start..block.end {
                    seen[i] += 1;
                }
            }
            assert!(seen.iter().all(|&count| count == 1));
            assert_eq!(blocks[0].start, 0);
            assert_eq!(blocks[workers - 1].end, n);
            for th in 1..workers {
                assert_eq!(blocks[th - 1].end, blocks[th].start);
            }
        }
    }
}

#[test]
fn plan_of_a_valid_pair_splits_the_rows_of_the_first_matrix() {
    let a = vec![vec![1, 2], vec![3, 4], vec![5, 6]];
    let b = vec![vec![1, 2, 3], vec![4, 5, 6]];
    assert_eq!(plan_blocks(&a, &b, 2), Ok(partition(3, 2)));
    assert_eq!(plan_blocks(&a, &b, 5), Ok(partition(3, 5)));
}

#[test]
fn invalid_pair_gets_no_plan() {
    let a = vec![vec![1, 2, 3], vec![4, 5, 6]];
    let b = vec![vec![1, 2], vec![3, 4]];
    let none: Vec<Vec<i32>> = Vec::new();
    assert_eq!(plan_blocks(&a, &b, 4), Err(MatMulError::DimensionMismatch));
    assert_eq!(plan_blocks(&none, &b, 4), Err(MatMulError::EmptyInput));
    assert_eq!(plan_blocks(&a, &none, 4), Err(MatMulError::EmptyInput));
    assert_eq!(plan_machine_blocks(&a, &b), Err(MatMulError::DimensionMismatch));
    assert_eq!(plan_machine_blocks(&none, &b), Err(MatMulError::EmptyInput));
    assert_eq!(plan_machine_blocks(&a, &none), Err(MatMulError::EmptyInput));
}

#[test]
fn machine_plan_has_a_block_for_each_cpu() {
    let a = vec![vec![1; 100]; 100];
    let blocks = plan_machine_blocks(&a, &a).unwrap();
    assert!(blocks.len() >= 1);
    assert_eq!(blocks.len(), num_cpus::get());
    assert_eq!(blocks, partition(100, blocks.len()));
}
