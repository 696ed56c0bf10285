//! Random matrices.

use vstd::prelude::*;
use crate::model::{lemma_matrix_view, rectangular};

verus! {

/// Entries of a generated matrix lie in `[0, VALUE_LIMIT)`.
pub const VALUE_LIMIT: i32 = 1000;

/// `m` has `rows` rows of `cols` entries, each in `[0, limit)`.
pub open spec fn is_sample(m: Seq<Seq<i32>>, rows: int, cols: int, limit: int) -> bool {
    &&& m.len() == rows
    &&& forall|i: int| 0 <= i < rows ==> (#[trigger] m[i]).len() == cols
    &&& forall|i: int, j: int| 0 <= i < rows && 0 <= j < cols ==> 0 <= #[trigger] m[i][j] < limit
}

/// Calls `rand::Rng::gen_range` on `rand::thread_rng()` with the range
/// `low..high`. For integers the crate draws from the half-open range, so the
/// value is at least `low` and below `high`; which value it is depends on
/// chance, and nothing more is claimed. An empty range makes the crate panic
/// and is left out.
#[verifier::external_body]
fn random_between(low: i32, high: i32) -> (value: i32)
    requires
        low < high,
    ensures
        low <= value < high,
{
    rand::Rng::gen_range(&mut rand::thread_rng(), low..high)
}

/// Generates a matrix of `m` rows and `n` columns of random entries, each in
/// `[0, VALUE_LIMIT)`.
pub fn get_random_matrix(m: u32, n: u32) -> (matrix: Vec<Vec<i32>>)
    ensures
        is_sample(matrix.deep_view(), m as int, n as int, VALUE_LIMIT as int),
        rectangular(matrix.deep_view()),
{
    let mut matrix: Vec<Vec<i32>> = Vec::new();
    let mut i: u32 = 0;
    while i < m
        invariant
            i <= m,
            matrix.len() == i,
            forall|x: int| 0 <= x < i ==> (#[trigger] matrix[x]).len() == n,
            forall|x: int, y: int|
                0 <= x < i && 0 <= y < n ==> 0 <= #[trigger] matrix[x][y] < VALUE_LIMIT,
        decreases m - i,
    {
        let mut row: Vec<i32> = Vec::new();
        let mut j: u32 = 0;
        while j < n
            invariant
                j <= n,
                row.len() == j,
                forall|y: int| 0 <= y < j ==> 0 <= #[trigger] row[y] < VALUE_LIMIT,
            decreases n - j,
        {
            let value: i32 = random_between(0, VALUE_LIMIT);
            row.push(value);
            j += 1;
        }
        matrix.push(row);
        i += 1;
    }
    proof {
        lemma_matrix_view(matrix);
    }
    matrix
}

} // verus!
