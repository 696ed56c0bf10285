//! The coordinator: how the reports of the workers become the output.

use vstd::prelude::*;
use crate::model::lemma_matrix_view;
use crate::validate::MatMulError;
use crate::worker::PartialResult;

verus! {

/// Some report owns row `i`.
pub open spec fn reported(parts: Seq<PartialResult>, i: int) -> bool {
    exists|k: int| 0 <= k < parts.len() && #[trigger] parts[k].owns(i)
}

/// The reports tile an output of `n` rows: each fits, every row is owned by
/// a report, and no row by two.
pub open spec fn tiles(parts: Seq<PartialResult>, n: int) -> bool {
    &&& forall|k: int| 0 <= k < parts.len() ==> (#[trigger] parts[k]).fits(n)
    &&& forall|i: int| 0 <= i < n ==> #[trigger] reported(parts, i)
    &&& forall|k1: int, k2: int, i: int|
        0 <= k1 < k2 < parts.len() && #[trigger] parts[k1].owns(i) ==> !(#[trigger] parts[k2].owns(
            i,
        ))
}

/// `out` has `n` rows, and each row that a report owns is the row of that
/// report.
pub open spec fn assembled(out: Seq<Seq<i32>>, parts: Seq<PartialResult>, n: int) -> bool {
    &&& out.len() == n
    &&& forall|k: int, i: int|
        0 <= k < parts.len() && #[trigger] parts[k].owns(i) ==> out[i] == parts[k].row(i)
}

/// Copies a row.
fn copy_row(row: &Vec<i32>) -> (copy: Vec<i32>)
    ensures
        copy@ == row@,
{
    let mut copy: Vec<i32> = Vec::new();
    let mut j: usize = 0;
    while j < row.len()
        invariant
            j <= row.len(),
            copy.len() == j,
            forall|y: int| 0 <= y < j ==> #[trigger] copy[y] == row[y],
        decreases row.len() - j,
    {
        copy.push(row[j]);
        j += 1;
    }
    assert(copy@ =~= row@);
    copy
}

/// The bookkeeping of [`assemble`] once the first `done` reports are written
/// and the rows below `upto` of the next one: `owner[x]` is the report that
/// filled row `x`, or negative while the row is empty.
spec fn written(
    out: Seq<Vec<i32>>,
    filled: Seq<bool>,
    owner: Seq<int>,
    parts: Seq<PartialResult>,
    done: int,
    upto: int,
) -> bool {
    let n = out.len();
    &&& filled.len() == n
    &&& owner.len() == n
    &&& forall|x: int| 0 <= x < n ==> (filled[x] <==> #[trigger] owner[x] >= 0)
    &&& forall|x: int|
        0 <= x < n && #[trigger] owner[x] >= 0 ==> owner[x] <= done && parts[owner[x]].owns(x)
            && out[x]@ == parts[owner[x]].rows[x - parts[owner[x]].start]@
    &&& forall|x: int|
        0 <= x < n ==> (#[trigger] owner[x] == done <==> parts[done].owns(x) && x < upto)
    &&& forall|y: int, x: int|
        0 <= y < done && 0 <= x < n && #[trigger] parts[y].owns(x) ==> owner[x] == y
}

/// The coordinator's task: writes each report into its rows of an output of
/// `n` rows, in the order in which the reports are given.
///
/// Succeeds exactly when the reports tile the output, whatever their order;
/// each output row is then the row of the one report that owns it. Otherwise
/// the error is `WorkerFailure`, and no incomplete matrix is handed out.
pub fn assemble(n: usize, parts: &Vec<PartialResult>) -> (outcome: Result<
    Vec<Vec<i32>>,
    MatMulError,
>)
    ensures
        outcome is Ok <==> tiles(parts@, n as int),
        outcome is Ok ==> assembled(outcome->Ok_0.deep_view(), parts@, n as int),
        outcome is Err ==> outcome->Err_0 == MatMulError::WorkerFailure,
{
    let mut out: Vec<Vec<i32>> = Vec::new();
    let mut filled: Vec<bool> = Vec::new();
    let mut i: usize = 0;
    while i < n
        invariant
            i <= n,
            out.len() == i,
            filled.len() == i,
            forall|x: int| 0 <= x < i ==> !#[trigger] filled[x],
        decreases n - i,
    {
        out.push(Vec::new());
        filled.push(false);
        i += 1;
    }
    let ghost mut owner: Seq<int> = Seq::new(n as nat, |x: int| -1);
    let mut k: usize = 0;
    while k < parts.len()
        invariant
            k <= parts.len(),
            out.len() == n,
            forall|y: int| 0 <= y < k ==> (#[trigger] parts[y]).fits(n as int),
            written(out@, filled@, owner, parts@, k as int, 0),
        decreases parts.len() - k,
    {
        let part: &PartialResult = &parts[k];
        if part.start > part.end || part.end > n || part.rows.len() != part.end - part.start {
            assert(!parts[k as int].fits(n as int));
            return Err(MatMulError::WorkerFailure);
        }
        let mut i: usize = part.start;
        while i < part.end
            invariant
                k < parts.len(),
                *part == parts[k as int],
                part.fits(n as int),
                part.start <= i <= part.end,
                out.len() == n,
                written(out@, filled@, owner, parts@, k as int, i as int),
            decreases part.end - i,
        {
            if filled[i] {
                proof {
                    let y = owner[i as int];
                    assert(parts[y].owns(i as int));
                    assert(parts[k as int].owns(i as int));
                    assert(!tiles(parts@, n as int));
                }
                return Err(MatMulError::WorkerFailure);
            }
            let row: Vec<i32> = copy_row(&part.rows[i - part.start]);
            out.set(i, row);
            filled.set(i, true);
            proof {
                owner = owner.update(i as int, k as int);
            }
            i += 1;
        }
        k += 1;
    }
    let mut i: usize = 0;
    while i < n
        invariant
            i <= n,
            k == parts.len(),
            out.len() == n,
            forall|y: int| 0 <= y < k ==> (#[trigger] parts[y]).fits(n as int),
            written(out@, filled@, owner, parts@, k as int, 0),
            forall|x: int| 0 <= x < i ==> #[trigger] filled[x],
        decreases n - i,
    {
        if !filled[i] {
            proof {
                assert(owner[i as int] < 0);
                assert(!reported(parts@, i as int));
            }
            return Err(MatMulError::WorkerFailure);
        }
        i += 1;
    }
    proof {
        lemma_matrix_view(out);
        assert forall|x: int| 0 <= x < n implies #[trigger] reported(parts@, x) by {
            assert(filled[x]);
            assert(parts[owner[x]].owns(x));
        }
        assert forall|y: int, x: int| 0 <= y < parts.len() && #[trigger] parts[y].owns(
            x,
        ) implies out.deep_view()[x] == parts[y].row(x) by {
            lemma_matrix_view(parts[y].rows);
        }
    }
    Ok(out)
}

} // verus!
