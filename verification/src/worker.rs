//! The worker: what one worker computes and reports.

use vstd::prelude::*;
use crate::model::{lemma_matrix_view, multiplicable, product, product_row};
use crate::partition::block_of;
use crate::sequential::compute_row;

verus! {

/// What one worker reports: the block `[start, end)` it was given and the
/// rows it computed, `rows[0]` being row `start` of the output.
#[derive(Debug, PartialEq, Eq)]
pub struct PartialResult {
    pub start: usize,
    pub end: usize,
    pub rows: Vec<Vec<i32>>,
}

impl PartialResult {
    /// Output row `i` belongs to this report.
    pub open spec fn owns(self, i: int) -> bool {
        self.start <= i < self.end
    }

    /// The report is a block of an output of `n` rows, with one computed row
    /// for each row of the block.
    pub open spec fn fits(self, n: int) -> bool {
        &&& self.start <= self.end <= n
        &&& self.rows.len() == self.end - self.start
    }

    /// Output row `i` as this report has it.
    pub open spec fn row(self, i: int) -> Seq<i32> {
        self.rows.deep_view()[i - self.start]
    }
}

/// `part` is what worker `th` of `workers` reports for the product of `a` and
/// `b`: its block, and the rows of the product in that block.
pub open spec fn is_block_result(
    part: PartialResult,
    a: Seq<Seq<i32>>,
    b: Seq<Seq<i32>>,
    th: int,
    workers: int,
) -> bool {
    &&& (part.start as int, part.end as int) == block_of(th, a.len() as int, workers)
    &&& part.rows.deep_view() == product(a, b).subrange(part.start as int, part.end as int)
}

/// A worker's task: computes the rows `[start, end)` of the product of `m1`
/// and `m2`, reading nothing but the two matrices.
pub fn compute_block(m1: &Vec<Vec<i32>>, m2: &Vec<Vec<i32>>, start: usize, end: usize) -> (part:
    PartialResult)
    requires
        multiplicable(m1.deep_view(), m2.deep_view()),
        start <= end <= m1.len(),
    ensures
        part.start == start,
        part.end == end,
        part.rows.deep_view() == product(m1.deep_view(), m2.deep_view()).subrange(
            start as int,
            end as int,
        ),
{
    let ghost a = m1.deep_view();
    let ghost b = m2.deep_view();
    let mut rows: Vec<Vec<i32>> = Vec::new();
    let mut i: usize = start;
    while i < end
        invariant
            start <= i <= end <= m1.len(),
            a == m1.deep_view(),
            b == m2.deep_view(),
            multiplicable(a, b),
            rows.len() == i - start,
            forall|x: int| 0 <= x < i - start ==> (#[trigger] rows[x])@ == product_row(a, b, start + x),
        decreases end - i,
    {
        let row: Vec<i32> = compute_row(m1, m2, i);
        rows.push(row);
        i += 1;
    }
    proof {
        lemma_matrix_view(rows);
        assert(rows.deep_view() =~= product(a, b).subrange(start as int, end as int));
    }
    PartialResult { start, end, rows }
}

} // verus!
