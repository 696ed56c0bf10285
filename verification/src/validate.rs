//! Validation of a pair of matrices before they are multiplied.

use vstd::prelude::*;
use crate::model::{columns, multiplicable, rectangular, lemma_matrix_view};

verus! {

/// Why a pair of matrices, or a set of partial results, gives no product.
#[derive(Clone, Copy, Debug, PartialEq, Eq, Structural)]
pub enum MatMulError {
    /// One of the two matrices has no rows.
    EmptyInput,
    /// Both matrices have rows, but the first does not have one column for
    /// each row of the second, or one of them is ragged.
    DimensionMismatch,
    /// The partial results handed in do not cover every output row exactly
    /// once: a worker did not report, reported twice, or reported a block of
    /// the wrong shape.
    WorkerFailure,
}

/// The verdict on a pair of matrices: `None` where it is multiplicable, else
/// the error that says why not. An empty matrix is reported before a
/// mismatch is looked for.
pub open spec fn dimension_error(a: Seq<Seq<i32>>, b: Seq<Seq<i32>>) -> Option<MatMulError> {
    if a.len() == 0 || b.len() == 0 {
        Some(MatMulError::EmptyInput)
    } else if !(rectangular(a) && rectangular(b) && columns(a) == b.len()) {
        Some(MatMulError::DimensionMismatch)
    } else {
        None
    }
}

/// Tells whether every row of `m` has exactly `len` entries.
fn rows_have_len(m: &Vec<Vec<i32>>, len: usize) -> (all: bool)
    ensures
        all <==> forall|i: int| 0 <= i < m.len() ==> (#[trigger] m.deep_view()[i]).len() == len,
{
    proof {
        lemma_matrix_view(*m);
    }
    let mut i: usize = 0;
    while i < m.len()
        invariant
            i <= m.len(),
            m.deep_view().len() == m.len(),
            forall|x: int| 0 <= x < m.len() ==> #[trigger] m.deep_view()[x] == m[x]@,
            forall|x: int| 0 <= x < i ==> (#[trigger] m.deep_view()[x]).len() == len,
        decreases m.len() - i,
    {
        if m[i].len() != len {
            assert(m.deep_view()[i as int].len() != len);
            return false;
        }
        i += 1;
    }
    true
}

/// Validates a pair of matrices.
///
/// Returns `Ok` exactly for a multiplicable pair. Otherwise the error is
/// `EmptyInput` where either matrix has no rows, and `DimensionMismatch`
/// where both have rows but the shapes do not fit.
pub fn check_dimensions(m1: &Vec<Vec<i32>>, m2: &Vec<Vec<i32>>) -> (verdict: Result<
    (),
    MatMulError,
>)
    ensures
        verdict is Ok <==> multiplicable(m1.deep_view(), m2.deep_view()),
        verdict is Err ==> Some(verdict->Err_0) == dimension_error(
            m1.deep_view(),
            m2.deep_view(),
        ),
        verdict is Ok ==> dimension_error(m1.deep_view(), m2.deep_view()) is None,
{
    proof {
        lemma_matrix_view(*m1);
        lemma_matrix_view(*m2);
    }
    if m1.len() == 0 || m2.len() == 0 {
        return Err(MatMulError::EmptyInput);
    }
    if !rows_have_len(m1, m2.len()) {
        return Err(MatMulError::DimensionMismatch);
    }
    let width: usize = m2[0].len();
    if !rows_have_len(m2, width) {
        return Err(MatMulError::DimensionMismatch);
    }
    Ok(())
}

} // verus!
