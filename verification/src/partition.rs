//! Row blocks: the split of the output rows among the workers.

use vstd::prelude::*;
use vstd::set_lib::set_int_range;

verus! {

/// A half-open range `[start, end)` of output rows, the share of one worker.
#[derive(Clone, Copy, Debug, PartialEq, Eq, Structural)]
pub struct RowBlock {
    pub start: usize,
    pub end: usize,
}

/// The boundary below block `th` when `n` rows are split among `workers`
/// workers: `th * n / workers`, rounded down.
pub open spec fn block_bound(th: int, n: int, workers: int) -> int {
    (th * n) / workers
}

/// Block `th` of `workers` over `n` rows, as a pair of boundaries.
pub open spec fn block_of(th: int, n: int, workers: int) -> (int, int) {
    (block_bound(th, n, workers), block_bound(th + 1, n, workers))
}

/// `blocks` is the split of `n` rows among `blocks.len()` workers.
pub open spec fn is_partition(blocks: Seq<RowBlock>, n: int) -> bool {
    forall|th: int|
        0 <= th < blocks.len() ==> ((#[trigger] blocks[th]).start as int, blocks[th].end as int)
            == block_of(th, n, blocks.len() as int)
}

/// The boundaries start at 0, end at `n` and never decrease.
pub proof fn lemma_bounds_ordered(th1: int, th2: int, n: int, workers: int)
    requires
        0 <= n,
        1 <= workers,
        0 <= th1 <= th2 <= workers,
    ensures
        block_bound(0, n, workers) == 0,
        block_bound(workers, n, workers) == n,
        0 <= block_bound(th1, n, workers) <= block_bound(th2, n, workers) <= n,
{
    assert((0 * n) / workers == 0) by (nonlinear_arith)
        requires
            workers >= 1,
    ;
    assert((workers * n) / workers == n) by (nonlinear_arith)
        requires
            workers >= 1,
    ;
    assert(0 <= (th1 * n) / workers <= (th2 * n) / workers) by (nonlinear_arith)
        requires
            0 <= n,
            1 <= workers,
            0 <= th1 <= th2,
    ;
    assert((th2 * n) / workers <= (workers * n) / workers) by (nonlinear_arith)
        requires
            0 <= n,
            1 <= workers,
            0 <= th2 <= workers,
    ;
}

/// The rows of block `th`, as a set.
pub open spec fn block_rows(th: int, n: int, workers: int) -> Set<int> {
    Set::new(|i: int| block_bound(th, n, workers) <= i < block_bound(th + 1, n, workers))
}

/// The rows that lie in one block or another.
pub open spec fn covered_rows(n: int, workers: int) -> Set<int> {
    Set::new(|i: int| exists|th: int| 0 <= th < workers && block_rows(th, n, workers).contains(i))
}

/// Finds, from block `from` upwards, the block that holds row `i`.
proof fn find_owner(i: int, n: int, workers: int, from: int) -> (th: int)
    requires
        1 <= workers,
        0 <= i < n,
        0 <= from < workers,
        block_bound(from, n, workers) <= i,
    ensures
        from <= th < workers,
        block_rows(th, n, workers).contains(i),
    decreases workers - from,
{
    if i < block_bound(from + 1, n, workers) {
        from
    } else {
        lemma_bounds_ordered(from + 1, workers, n, workers);
        find_owner(i, n, workers, from + 1)
    }
}

/// Every row of `[0, n)` lies in some block: the result is such a block.
pub proof fn owner_of(i: int, n: int, workers: int) -> (th: int)
    requires
        1 <= workers,
        0 <= i < n,
    ensures
        0 <= th < workers,
        block_rows(th, n, workers).contains(i),
{
    lemma_bounds_ordered(0, 0, n, workers);
    find_owner(i, n, workers, 0)
}

/// Two different blocks share no row.
pub proof fn lemma_blocks_disjoint(th1: int, th2: int, n: int, workers: int)
    requires
        0 <= n,
        1 <= workers,
        0 <= th1 < workers,
        0 <= th2 < workers,
        th1 != th2,
    ensures
        block_rows(th1, n, workers).disjoint(block_rows(th2, n, workers)),
{
    if th1 < th2 {
        lemma_bounds_ordered(th1 + 1, th2, n, workers);
    } else {
        lemma_bounds_ordered(th2 + 1, th1, n, workers);
    }
}

/// The union of the blocks is exactly `[0, n)`.
pub proof fn lemma_blocks_cover(n: int, workers: int)
    requires
        0 <= n,
        1 <= workers,
    ensures
        covered_rows(n, workers) == set_int_range(0, n),
{
    assert forall|i: int| covered_rows(n, workers).contains(i) implies set_int_range(
        0,
        n,
    ).contains(i) by {
        let th = choose|th: int| 0 <= th < workers && block_rows(th, n, workers).contains(i);
        lemma_bounds_ordered(th, th + 1, n, workers);
    }
    assert forall|i: int| set_int_range(0, n).contains(i) implies covered_rows(
        n,
        workers,
    ).contains(i) by {
        let th = owner_of(i, n, workers);
    }
    assert(covered_rows(n, workers) =~= set_int_range(0, n));
}

/// Computes `k * n / workers` without overflow.
fn scaled(k: usize, n: usize, workers: usize) -> (bound: usize)
    requires
        1 <= workers,
        k <= workers,
    ensures
        bound == block_bound(k as int, n as int, workers as int),
        bound <= n,
{
    proof {
        lemma_bounds_ordered(k as int, k as int, n as int, workers as int);
    }
    assert(k * n <= u128::MAX) by (nonlinear_arith)
        requires
            0 <= k <= 0xffff_ffff_ffff_ffff,
            0 <= n <= 0xffff_ffff_ffff_ffff,
    ;
    let wide: u128 = (k as u128) * (n as u128);
    let bound: u128 = wide / (workers as u128);
    bound as usize
}

/// The block of worker `th` when `n` rows are split among `workers` workers:
/// from `th * n / workers` up to, not including, `(th + 1) * n / workers`.
///
/// Sizes differ by at most the rounding; with more workers than rows some
/// blocks are empty.
pub fn row_block(th: usize, n: usize, workers: usize) -> (block: RowBlock)
    requires
        1 <= workers,
        th < workers,
    ensures
        (block.start as int, block.end as int) == block_of(th as int, n as int, workers as int),
        block.start <= block.end <= n,
{
    proof {
        lemma_bounds_ordered(th as int, th + 1, n as int, workers as int);
    }
    RowBlock { start: scaled(th, n, workers), end: scaled(th + 1, n, workers) }
}

/// Splits the rows `[0, n)` into `workers` consecutive blocks, one for each
/// worker, in order.
pub fn partition(n: usize, workers: usize) -> (blocks: Vec<RowBlock>)
    requires
        1 <= workers,
    ensures
        blocks.len() == workers,
        is_partition(blocks@, n as int),
{
    let mut blocks: Vec<RowBlock> = Vec::new();
    let mut th: usize = 0;
    while th < workers
        invariant
            1 <= workers,
            th <= workers,
            blocks.len() == th,
            forall|x: int|
                0 <= x < th ==> ((#[trigger] blocks[x]).start as int, blocks[x].end as int)
                    == block_of(x, n as int, workers as int),
        decreases workers - th,
    {
        let block: RowBlock = row_block(th, n, workers);
        blocks.push(block);
        th += 1;
    }
    blocks
}

} // verus!
