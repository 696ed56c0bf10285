//! The block-wise multiplier: a plan of row blocks, one worker's task for
//! each block, and the coordinator's task on what the workers report.
//!
//! Nothing here starts a thread. A worker's whole task is one call of
//! [`compute_block`], and the coordinator's is one call of [`assemble`] on the
//! reports in the order in which they arrived, so a caller may run the
//! workers of a plan wherever it likes. [`mat_mul_blocks`] and [`mat_mul_pal`]
//! run them one after the other on the calling thread.

use vstd::prelude::*;
use crate::coordinator::assemble;
use crate::laws::lemma_blocks_match_sequential;
use crate::model::{lemma_matrix_view, matmul_result, multiplicable};
use crate::partition::{is_partition, lemma_bounds_ordered, partition, RowBlock};
use crate::validate::{check_dimensions, dimension_error, MatMulError};
use crate::worker::{compute_block, is_block_result, PartialResult};

verus! {

/// Calls `num_cpus::get`, the number of logical CPUs that this process may
/// use. Its documentation promises a count of at least 1; the count itself
/// depends on the machine, and nothing more is claimed of it.
#[verifier::external_body]
fn available_workers() -> (count: usize)
    ensures
        count >= 1,
{
    num_cpus::get()
}

/// Plans a multiplication by `workers` workers: validates the pair, then
/// splits the output rows, one for each row of `m1`, among the workers.
///
/// A pair that cannot be multiplied gets no plan, and so no worker: the
/// error says why, as [`check_dimensions`] does.
pub fn plan_blocks(m1: &Vec<Vec<i32>>, m2: &Vec<Vec<i32>>, workers: usize) -> (plan: Result<
    Vec<RowBlock>,
    MatMulError,
>)
    requires
        workers >= 1,
    ensures
        plan is Ok <==> multiplicable(m1.deep_view(), m2.deep_view()),
        plan is Ok ==> plan->Ok_0.len() == workers && is_partition(
            plan->Ok_0@,
            m1.len() as int,
        ),
        plan is Err ==> Some(plan->Err_0) == dimension_error(m1.deep_view(), m2.deep_view()),
{
    match check_dimensions(m1, m2) {
        Ok(()) => Ok(partition(m1.len(), workers)),
        Err(e) => Err(e),
    }
}

/// Plans a multiplication on this machine: as [`plan_blocks`], with as many
/// workers as the machine has logical CPUs, at least one.
///
/// The pair is validated first; the machine is asked nothing about a pair
/// that cannot be multiplied.
pub fn plan_machine_blocks(m1: &Vec<Vec<i32>>, m2: &Vec<Vec<i32>>) -> (plan: Result<
    Vec<RowBlock>,
    MatMulError,
>)
    ensures
        plan is Ok <==> multiplicable(m1.deep_view(), m2.deep_view()),
        plan is Ok ==> plan->Ok_0.len() >= 1 && is_partition(plan->Ok_0@, m1.len() as int),
        plan is Err ==> Some(plan->Err_0) == dimension_error(m1.deep_view(), m2.deep_view()),
{
    match check_dimensions(m1, m2) {
        Ok(()) => {
            let workers: usize = available_workers();
            Ok(partition(m1.len(), workers))
        },
        Err(e) => Err(e),
    }
}

/// Runs the plan `blocks` on the calling thread: one worker's task for each
/// block, in order, then the coordinator's.
fn run_blocks(m1: &Vec<Vec<i32>>, m2: &Vec<Vec<i32>>, blocks: &Vec<RowBlock>) -> (ans: Vec<
    Vec<i32>,
>)
    requires
        multiplicable(m1.deep_view(), m2.deep_view()),
        blocks.len() >= 1,
        is_partition(blocks@, m1.len() as int),
    ensures
        ans.deep_view() == matmul_result(m1.deep_view(), m2.deep_view()),
{
    let ghost a = m1.deep_view();
    let ghost b = m2.deep_view();
    let n: usize = m1.len();
    let workers: usize = blocks.len();
    let mut parts: Vec<PartialResult> = Vec::new();
    let mut th: usize = 0;
    while th < workers
        invariant
            th <= workers,
            workers == blocks.len(),
            workers >= 1,
            n == m1.len(),
            a == m1.deep_view(),
            b == m2.deep_view(),
            a.len() == n,
            multiplicable(a, b),
            is_partition(blocks@, n as int),
            parts.len() == th,
            forall|k: int|
                0 <= k < th ==> is_block_result(#[trigger] parts[k], a, b, k, workers as int),
        decreases workers - th,
    {
        let block: RowBlock = blocks[th];
        proof {
            lemma_bounds_ordered(th as int, th + 1, n as int, workers as int);
        }
        let part: PartialResult = compute_block(m1, m2, block.start, block.end);
        parts.push(part);
        th += 1;
    }
    proof {
        let order = Seq::new(workers as nat, |k: int| k);
        lemma_blocks_match_sequential(a, b, parts@, order, order);
    }
    match assemble(n, &parts) {
        Ok(ans) => ans,
        // Never taken: the reports of a plan tile the output.
        Err(_) => Vec::new(),
    }
}

/// Multiplies `m1` by `m2` block by block, as `workers` workers would.
///
/// The result is that of the sequential multiplier, whatever the number of
/// workers: the product of a multiplicable pair, the empty matrix for every
/// other pair.
pub fn mat_mul_blocks(m1: &Vec<Vec<i32>>, m2: &Vec<Vec<i32>>, workers: usize) -> (ans: Vec<
    Vec<i32>,
>)
    requires
        workers >= 1,
    ensures
        ans.deep_view() == matmul_result(m1.deep_view(), m2.deep_view()),
        ans.len() == 0 <==> !multiplicable(m1.deep_view(), m2.deep_view()),
{
    match plan_blocks(m1, m2, workers) {
        Ok(blocks) => {
            let ans: Vec<Vec<i32>> = run_blocks(m1, m2, &blocks);
            proof {
                lemma_matrix_view(ans);
            }
            ans
        },
        Err(_) => {
            let ans: Vec<Vec<i32>> = Vec::new();
            assert(ans.deep_view() =~= Seq::<Seq<i32>>::empty());
            ans
        },
    }
}

/// Multiplies `m1` by `m2` block by block, with one block for each logical
/// CPU of the machine.
///
/// The result is that of the sequential multiplier, whatever the machine: the
/// product of a multiplicable pair, the empty matrix for every other pair.
pub fn mat_mul_pal(m1: &Vec<Vec<i32>>, m2: &Vec<Vec<i32>>) -> (ans: Vec<Vec<i32>>)
    ensures
        ans.deep_view() == matmul_result(m1.deep_view(), m2.deep_view()),
        ans.len() == 0 <==> !multiplicable(m1.deep_view(), m2.deep_view()),
{
    match plan_machine_blocks(m1, m2) {
        Ok(blocks) => {
            let ans: Vec<Vec<i32>> = run_blocks(m1, m2, &blocks);
            proof {
                lemma_matrix_view(ans);
            }
            ans
        },
        Err(_) => {
            let ans: Vec<Vec<i32>> = Vec::new();
            assert(ans.deep_view() =~= Seq::<Seq<i32>>::empty());
            ans
        },
    }
}

} // verus!
