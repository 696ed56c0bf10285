//! Laws that relate the multipliers to each other and to the identity matrix.

use vstd::prelude::*;
use crate::model::{columns, dot, entry, matmul_result, multiplicable, product, rectangular};
use crate::coordinator::{assembled, reported, tiles};
use crate::worker::{is_block_result, PartialResult};
use crate::partition::{block_rows, lemma_blocks_disjoint, lemma_bounds_ordered, owner_of};
use crate::wrap::lemma_wrap_fits;

verus! {

/// `order` lists the workers in the order in which their reports arrived, and
/// `pos` gives for each worker the place of its report: the two are inverse
/// permutations of `0 .. workers`, so each worker reported exactly once.
pub open spec fn is_arrival_order(order: Seq<int>, pos: Seq<int>, workers: int) -> bool {
    &&& order.len() == workers
    &&& pos.len() == workers
    &&& forall|k: int| 0 <= k < workers ==> 0 <= #[trigger] order[k] < workers && pos[order[k]] == k
    &&& forall|th: int| 0 <= th < workers ==> 0 <= #[trigger] pos[th] < workers && order[pos[th]] == th
}

/// The block-wise multiplier agrees with the sequential one, for any number
/// of workers and any order of arrival.
///
/// Let each of `parts.len() >= 1` workers report its block of the product of
/// a multiplicable pair, the reports standing in `parts` in any order. Then
/// the reports tile the output, so assembling them succeeds, and whatever
/// matrix is assembled from them is the result of the sequential multiplier.
pub proof fn lemma_blocks_match_sequential(
    a: Seq<Seq<i32>>,
    b: Seq<Seq<i32>>,
    parts: Seq<PartialResult>,
    order: Seq<int>,
    pos: Seq<int>,
)
    requires
        multiplicable(a, b),
        parts.len() >= 1,
        is_arrival_order(order, pos, parts.len() as int),
        forall|k: int|
            0 <= k < parts.len() ==> is_block_result(
                #[trigger] parts[k],
                a,
                b,
                order[k],
                parts.len() as int,
            ),
    ensures
        tiles(parts, a.len() as int),
        forall|out: Seq<Seq<i32>>| #[trigger]
            assembled(out, parts, a.len() as int) ==> out == matmul_result(a, b),
{
    let n = a.len() as int;
    let workers = parts.len() as int;
    assert forall|k: int| 0 <= k < parts.len() implies (#[trigger] parts[k]).fits(n) by {
        lemma_bounds_ordered(order[k], order[k] + 1, n, workers);
        assert(parts[k].rows.deep_view().len() == parts[k].end - parts[k].start);
    }
    assert forall|i: int| 0 <= i < n implies #[trigger] reported(parts, i) by {
        let th = owner_of(i, n, workers);
        assert(parts[pos[th]].owns(i));
    }
    assert forall|k1: int, k2: int, i: int|
        0 <= k1 < k2 < parts.len() && #[trigger] parts[k1].owns(i) implies !(
    #[trigger] parts[k2].owns(i)) by {
        assert(pos[order[k1]] == k1 && pos[order[k2]] == k2);
        lemma_blocks_disjoint(order[k1], order[k2], n, workers);
        assert(block_rows(order[k1], n, workers).contains(i));
        assert(!block_rows(order[k2], n, workers).contains(i));
    }
    assert forall|out: Seq<Seq<i32>>| #[trigger] assembled(out, parts, n) implies out
        == matmul_result(a, b) by {
        assert forall|i: int| 0 <= i < n implies out[i] == product(a, b)[i] by {
            let th = owner_of(i, n, workers);
            let k = pos[th];
            assert(parts[k].owns(i));
            assert(out[i] == parts[k].row(i));
        }
        assert(out =~= product(a, b));
    }
}

/// The identity matrix of `n` rows and columns.
pub open spec fn identity(n: nat) -> Seq<Seq<i32>> {
    Seq::new(
        n,
        |i: int|
            Seq::new(
                n,
                |j: int|
                    if i == j {
                        1i32
                    } else {
                        0i32
                    },
            ),
    )
}

/// A partial sum against a column of the identity holds the one entry of the
/// row that the column selects, once the sum has passed it.
proof fn lemma_dot_identity_right(a: Seq<Seq<i32>>, i: int, j: int, k: nat)
    requires
        rectangular(a),
        0 <= i < a.len(),
        0 <= j < columns(a),
        k <= columns(a),
    ensures
        dot(a, identity(columns(a)), i, j, k) == if j < k {
            a[i][j] as int
        } else {
            0
        },
    decreases k,
{
    if k > 0 {
        lemma_dot_identity_right(a, i, j, (k - 1) as nat);
        let unit = identity(columns(a))[k - 1][j];
        assert(unit == if k - 1 == j {
            1i32
        } else {
            0i32
        });
    }
}

/// A partial sum of a row of the identity against a column holds the one
/// entry of the column that the row selects, once the sum has passed it.
proof fn lemma_dot_identity_left(a: Seq<Seq<i32>>, i: int, j: int, k: nat)
    requires
        rectangular(a),
        0 <= i < a.len(),
        0 <= j < columns(a),
        k <= a.len(),
    ensures
        dot(identity(a.len()), a, i, j, k) == if i < k {
            a[i][j] as int
        } else {
            0
        },
    decreases k,
{
    if k > 0 {
        lemma_dot_identity_left(a, i, j, (k - 1) as nat);
        let unit = identity(a.len())[i][k - 1];
        assert(unit == if i == k - 1 {
            1i32
        } else {
            0i32
        });
    }
}

/// Multiplying a matrix by the identity on the right returns the matrix, with
/// either multiplier. The matrix has at least one row and one column: an
/// identity without rows is an empty input.
pub proof fn lemma_identity_right(a: Seq<Seq<i32>>)
    requires
        rectangular(a),
        a.len() > 0,
        columns(a) > 0,
    ensures
        multiplicable(a, identity(columns(a))),
        matmul_result(a, identity(columns(a))) == a,
{
    let unit = identity(columns(a));
    assert(multiplicable(a, unit));
    assert forall|i: int| 0 <= i < a.len() implies #[trigger] product(a, unit)[i] == a[i] by {
        assert forall|j: int| 0 <= j < columns(a) implies entry(a, unit, i, j) == a[i][j] by {
            lemma_dot_identity_right(a, i, j, columns(a));
            lemma_wrap_fits(a[i][j] as int);
        }
        assert(product(a, unit)[i] =~= a[i]);
    }
    assert(product(a, unit) =~= a);
}

/// Multiplying a matrix by the identity on the left returns the matrix, with
/// either multiplier. The matrix has at least one row.
pub proof fn lemma_identity_left(a: Seq<Seq<i32>>)
    requires
        rectangular(a),
        a.len() > 0,
    ensures
        multiplicable(identity(a.len()), a),
        matmul_result(identity(a.len()), a) == a,
{
    let unit = identity(a.len());
    assert(multiplicable(unit, a));
    assert forall|i: int| 0 <= i < a.len() implies #[trigger] product(unit, a)[i] == a[i] by {
        assert forall|j: int| 0 <= j < columns(a) implies entry(unit, a, i, j) == a[i][j] by {
            lemma_dot_identity_left(a, i, j, a.len());
            lemma_wrap_fits(a[i][j] as int);
        }
        assert(product(unit, a)[i] =~= a[i]);
    }
    assert(product(unit, a) =~= a);
}

/// The product of a multiplicable pair has one row for each row of the first
/// matrix and one column for each column of the second, and is rectangular.
pub proof fn lemma_product_shape(a: Seq<Seq<i32>>, b: Seq<Seq<i32>>)
    requires
        multiplicable(a, b),
    ensures
        product(a, b).len() == a.len(),
        columns(product(a, b)) == columns(b),
        rectangular(product(a, b)),
{
}

/// A partial sum of products of entries in `[0, limit)` lies between 0 and
/// `k` times the largest such product.
proof fn lemma_dot_bounded(a: Seq<Seq<i32>>, b: Seq<Seq<i32>>, i: int, j: int, k: nat, limit: int)
    requires
        1 <= limit,
        k <= b.len(),
        forall|x: int| 0 <= x < b.len() ==> 0 <= #[trigger] a[i][x] < limit,
        forall|x: int| 0 <= x < b.len() ==> 0 <= (#[trigger] b[x])[j] < limit,
    ensures
        0 <= dot(a, b, i, j, k) <= k * ((limit - 1) * (limit - 1)),
    decreases k,
{
    if k > 0 {
        lemma_dot_bounded(a, b, i, j, (k - 1) as nat, limit);
        let p: int = a[i][k - 1] as int;
        let q: int = b[k - 1][j] as int;
        let top: int = limit - 1;
        assert(0 <= p * q <= top * top) by (nonlinear_arith)
            requires
                0 <= p <= top,
                0 <= q <= top,
        ;
        assert(k * (top * top) == (k - 1) * (top * top) + top * top) by (nonlinear_arith);
    }
}

/// Where the entries are small, nothing wraps: if the entries of row `i` of
/// `a` and of column `j` of `b` lie in `[0, limit)`, and as many products of
/// such entries as `b` has rows fit in an `i32`, then entry `(i, j)` of the
/// product is the exact sum. With `limit` 1000 this holds up to 2151 rows.
pub proof fn lemma_entry_exact(a: Seq<Seq<i32>>, b: Seq<Seq<i32>>, i: int, j: int, limit: int)
    requires
        1 <= limit,
        forall|x: int| 0 <= x < b.len() ==> 0 <= #[trigger] a[i][x] < limit,
        forall|x: int| 0 <= x < b.len() ==> 0 <= (#[trigger] b[x])[j] < limit,
        b.len() * ((limit - 1) * (limit - 1)) <= i32::MAX,
    ensures
        entry(a, b, i, j) == dot(a, b, i, j, b.len()),
{
    lemma_dot_bounded(a, b, i, j, b.len(), limit);
    lemma_wrap_fits(dot(a, b, i, j, b.len()));
}

} // verus!
