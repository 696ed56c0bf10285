//! The sequential multiplier: the plain triple loop.

use vstd::prelude::*;
use vstd::wrapping::i32_specs;
use crate::model::{
    columns, dot, entry, lemma_matrix_view, matmul_result, multiplicable, product, product_row,
};
use crate::validate::check_dimensions;
use crate::wrap::{lemma_wrapping_step, wrap_i32};

verus! {

/// Computes entry `(i, j)` of the product of `m1` and `m2`: the sum over `k`
/// of `m1[i][k] * m2[k][j]`, in wrapping arithmetic.
pub fn dot_entry(m1: &Vec<Vec<i32>>, m2: &Vec<Vec<i32>>, i: usize, j: usize) -> (value: i32)
    requires
        multiplicable(m1.deep_view(), m2.deep_view()),
        i < m1.len(),
        j < columns(m2.deep_view()),
    ensures
        value == entry(m1.deep_view(), m2.deep_view(), i as int, j as int),
{
    let ghost a = m1.deep_view();
    let ghost b = m2.deep_view();
    proof {
        lemma_matrix_view(*m1);
        lemma_matrix_view(*m2);
    }
    let inner: usize = m2.len();
    let mut cur: i32 = 0;
    let mut k: usize = 0;
    while k < inner
        invariant
            k <= inner,
            inner == m2.len(),
            i < m1.len(),
            a == m1.deep_view(),
            b == m2.deep_view(),
            a.len() == m1.len(),
            b.len() == m2.len(),
            forall|x: int| 0 <= x < m1.len() ==> #[trigger] a[x] == m1[x]@,
            forall|x: int| 0 <= x < m2.len() ==> #[trigger] b[x] == m2[x]@,
            multiplicable(a, b),
            j < columns(b),
            cur == wrap_i32(dot(a, b, i as int, j as int, k as nat)),
        decreases inner - k,
    {
        assert(a[i as int].len() == inner);
        assert(b[k as int].len() == columns(b));
        let p: i32 = m1[i][k];
        let q: i32 = m2[k][j];
        proof {
            lemma_wrapping_step(dot(a, b, i as int, j as int, k as nat), p, q);
        }
        cur = cur.wrapping_add(p.wrapping_mul(q));
        k += 1;
    }
    cur
}

/// Computes row `i` of the product of `m1` and `m2`, one entry for each
/// column of `m2`.
pub fn compute_row(m1: &Vec<Vec<i32>>, m2: &Vec<Vec<i32>>, i: usize) -> (row: Vec<i32>)
    requires
        multiplicable(m1.deep_view(), m2.deep_view()),
        i < m1.len(),
    ensures
        row@ == product_row(m1.deep_view(), m2.deep_view(), i as int),
{
    let ghost a = m1.deep_view();
    let ghost b = m2.deep_view();
    proof {
        lemma_matrix_view(*m2);
    }
    let width: usize = m2[0].len();
    let mut row: Vec<i32> = Vec::new();
    let mut j: usize = 0;
    while j < width
        invariant
            j <= width,
            i < m1.len(),
            width == columns(b),
            a == m1.deep_view(),
            b == m2.deep_view(),
            multiplicable(a, b),
            row.len() == j,
            forall|y: int| 0 <= y < j ==> #[trigger] row[y] == entry(a, b, i as int, y),
        decreases width - j,
    {
        let value: i32 = dot_entry(m1, m2, i, j);
        row.push(value);
        j += 1;
    }
    assert(row@ =~= product_row(a, b, i as int));
    row
}

/// Multiplies `m1` by `m2` on the calling thread.
///
/// For a multiplicable pair the result is the product, with one row for each
/// row of `m1` and one column for each column of `m2`. For every other pair it
/// is the empty matrix.
pub fn mat_mul(m1: &Vec<Vec<i32>>, m2: &Vec<Vec<i32>>) -> (ans: Vec<Vec<i32>>)
    ensures
        ans.deep_view() == matmul_result(m1.deep_view(), m2.deep_view()),
        ans.len() == 0 <==> !multiplicable(m1.deep_view(), m2.deep_view()),
{
    let ghost a = m1.deep_view();
    let ghost b = m2.deep_view();
    let mut ans: Vec<Vec<i32>> = Vec::new();
    if check_dimensions(m1, m2).is_err() {
        assert(ans.deep_view() =~= Seq::<Seq<i32>>::empty());
        return ans;
    }
    let height: usize = m1.len();
    let mut i: usize = 0;
    while i < height
        invariant
            i <= height,
            height == m1.len(),
            a == m1.deep_view(),
            b == m2.deep_view(),
            multiplicable(a, b),
            ans.len() == i,
            forall|x: int| 0 <= x < i ==> (#[trigger] ans[x])@ == product_row(a, b, x),
        decreases height - i,
    {
        let row: Vec<i32> = compute_row(m1, m2, i);
        ans.push(row);
        i += 1;
    }
    proof {
        lemma_matrix_view(ans);
        assert(ans.deep_view() =~= product(a, b));
    }
    ans
}

} // verus!
