//! The mathematical model: what a matrix is and what a product is.

use vstd::prelude::*;
use crate::wrap::wrap_i32;

verus! {

/// The number of columns: the length of the first row, 0 where there is none.
pub open spec fn columns(m: Seq<Seq<i32>>) -> nat {
    if m.len() == 0 {
        0
    } else {
        m[0].len()
    }
}

/// Every row has the same length.
pub open spec fn rectangular(m: Seq<Seq<i32>>) -> bool {
    forall|i: int| 0 <= i < m.len() ==> (#[trigger] m[i]).len() == columns(m)
}

/// `a` and `b` can be multiplied: neither is empty, both are rectangular, and
/// `a` has as many columns as `b` has rows.
pub open spec fn multiplicable(a: Seq<Seq<i32>>, b: Seq<Seq<i32>>) -> bool {
    &&& a.len() > 0
    &&& b.len() > 0
    &&& rectangular(a)
    &&& rectangular(b)
    &&& columns(a) == b.len()
}

/// The exact sum of the first `k` terms `a[i][x] * b[x][j]`.
pub open spec fn dot(a: Seq<Seq<i32>>, b: Seq<Seq<i32>>, i: int, j: int, k: nat) -> int
    decreases k,
{
    if k == 0 {
        0
    } else {
        dot(a, b, i, j, (k - 1) as nat) + a[i][k - 1] * b[k - 1][j]
    }
}

/// Entry `(i, j)` of the product: the full sum over `b`'s rows, wrapped to `i32`.
pub open spec fn entry(a: Seq<Seq<i32>>, b: Seq<Seq<i32>>, i: int, j: int) -> i32 {
    wrap_i32(dot(a, b, i, j, b.len()))
}

/// Row `i` of the product, one entry for each column of `b`.
pub open spec fn product_row(a: Seq<Seq<i32>>, b: Seq<Seq<i32>>, i: int) -> Seq<i32> {
    Seq::new(columns(b), |j: int| entry(a, b, i, j))
}

/// The product of `a` and `b`, one row for each row of `a`.
pub open spec fn product(a: Seq<Seq<i32>>, b: Seq<Seq<i32>>) -> Seq<Seq<i32>> {
    Seq::new(a.len(), |i: int| product_row(a, b, i))
}

/// What a multiplier returns: the product of a multiplicable pair, and the
/// empty matrix for every other pair.
pub open spec fn matmul_result(a: Seq<Seq<i32>>, b: Seq<Seq<i32>>) -> Seq<Seq<i32>> {
    if multiplicable(a, b) {
        product(a, b)
    } else {
        Seq::empty()
    }
}

/// The deep view of a row of integers is its view.
pub proof fn lemma_row_view(row: Vec<i32>)
    ensures
        row.deep_view() == row@,
{
    assert(row.deep_view() =~= row@);
}

/// The deep view of a matrix holds, row by row, the views of its rows.
pub proof fn lemma_matrix_view(m: Vec<Vec<i32>>)
    ensures
        m.deep_view().len() == m.len(),
        forall|i: int| 0 <= i < m.len() ==> #[trigger] m.deep_view()[i] == m[i]@,
{
    assert forall|i: int| 0 <= i < m.len() implies #[trigger] m.deep_view()[i] == m[i]@ by {
        lemma_row_view(m[i]);
    }
}

} // verus!
