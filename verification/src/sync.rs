//! The incremental sync: what is new since the watermark, as rows ready to be
//! written in one batch.

use crate::cost_basis::PositionState;
use crate::gmo::{listed, Execution, ExecutionData};
use crate::models::{execution_rows, ExecutionRow, MyExecutions, Positions};
use crate::normalize::{convert_my_executions, normalize_spec, NormalizeError};
use vstd::prelude::*;

verus! {

/// Where the cost-basis fold resumes: the last execution folded and the
/// registers after it.
#[derive(Clone, Copy, Debug, PartialEq, Eq, Structural)]
pub struct CostBasisWatermark {
    pub last_id: i64,
    pub state: PositionState,
}

/// The execution watermark: the greatest execution id in the store, or zero
/// where the store holds none.
pub fn resolve_execution_watermark(max_id: Option<i64>) -> (last_id: i64)
    ensures
        last_id == watermark_spec(max_id),
{
    match max_id {
        Some(v) => v,
        None => 0,
    }
}

/// The cost-basis watermark of a store whose latest checkpoint is `latest`.
pub open spec fn cost_basis_watermark_spec(
    latest: Option<&Positions>,
    initial: PositionState,
) -> CostBasisWatermark {
    match latest {
        Some(c) => CostBasisWatermark {
            last_id: c.execution_id,
            state: PositionState { cum_size: c.size, avg_price: c.average_price },
        },
        None => CostBasisWatermark { last_id: 0, state: initial },
    }
}

/// The cost-basis watermark: the latest checkpoint's execution and registers,
/// or, where the store holds no checkpoint, execution zero and the configured
/// initial position.
pub fn resolve_cost_basis_watermark(latest: Option<&Positions>, initial: PositionState) -> (w:
    CostBasisWatermark)
    ensures
        w == cost_basis_watermark_spec(latest, initial),
{
    match latest {
        Some(c) => CostBasisWatermark {
            last_id: c.execution_id,
            state: PositionState { cum_size: c.size, avg_price: c.average_price },
        },
        None => CostBasisWatermark { last_id: 0, state: initial },
    }
}

/// The watermark of a store whose greatest execution id is `max_id`.
pub open spec fn watermark_spec(max_id: Option<i64>) -> int {
    match max_id {
        Some(v) => v as int,
        None => 0,
    }
}

/// The rows that a sync writes: those of the executions above the watermark.
/// Meant for a list whose executions above the watermark all have rows.
pub open spec fn written_spec(max_id: Option<i64>, fetched: Seq<Execution>) -> Seq<ExecutionRow> {
    normalize_all(newer_than(fetched, watermark_spec(max_id))).unwrap()
}

/// The executions above the watermark, in the order given.
pub open spec fn newer_than(list: Seq<Execution>, last_id: int) -> Seq<Execution>
    decreases list.len(),
{
    if list.len() == 0 {
        Seq::empty()
    } else if list.last().execution_id > last_id {
        newer_than(list.drop_last(), last_id).push(list.last())
    } else {
        newer_than(list.drop_last(), last_id)
    }
}

/// The rows of a list of executions, or the error of the first that has none.
pub open spec fn normalize_all(list: Seq<Execution>) -> Result<Seq<ExecutionRow>, NormalizeError>
    decreases list.len(),
{
    if list.len() == 0 {
        Ok(Seq::empty())
    } else {
        match normalize_all(list.drop_last()) {
            Err(e) => Err(e),
            Ok(rows) => match normalize_spec(list.last()) {
                Err(e) => Err(e),
                Ok(row) => Ok(rows.push(row)),
            },
        }
    }
}

/// The views of a batch outcome.
pub open spec fn batch_view(r: Result<Vec<MyExecutions>, NormalizeError>) -> Result<
    Seq<ExecutionRow>,
    NormalizeError,
> {
    match r {
        Ok(rows) => Ok(execution_rows(rows@)),
        Err(e) => Err(e),
    }
}

/// The rows of a list of executions, in order, or the error of the first
/// execution that has none.
pub fn normalize_list(list: &Vec<Execution>) -> (r: Result<Vec<MyExecutions>, NormalizeError>)
    ensures
        batch_view(r) == normalize_all(list@),
{
    let mut out: Vec<MyExecutions> = Vec::new();
    let n: usize = list.len();
    let mut i: usize = 0;
    assert(execution_rows(out@) =~= Seq::empty());
    while i < n
        invariant
            n == list@.len(),
            0 <= i <= n,
            normalize_all(list@.take(i as int)) == Ok::<Seq<ExecutionRow>, NormalizeError>(
                execution_rows(out@),
            ),
        decreases n - i,
    {
        proof {
            assert(list@.take(i + 1).drop_last() =~= list@.take(i as int));
            assert(list@.take(i + 1).last() == list@[i as int]);
        }
        match convert_my_executions(&list[i]) {
            Ok(row) => {
                let ghost rows = execution_rows(out@);
                out.push(row);
                assert(execution_rows(out@) =~= rows.push(row@));
            },
            Err(e) => {
                proof {
                    lemma_error_stays(list@, i + 1);
                }
                return Err(e);
            },
        }
        i = i + 1;
    }
    proof {
        assert(list@.take(n as int) =~= list@);
    }
    Ok(out)
}

/// An error among the first `k` executions is the error of the whole list.
pub proof fn lemma_error_stays(list: Seq<Execution>, k: int)
    requires
        0 <= k <= list.len(),
        normalize_all(list.take(k)) is Err,
    ensures
        normalize_all(list) == normalize_all(list.take(k)),
    decreases list.len(),
{
    if k == list.len() {
        assert(list.take(k) =~= list);
    } else {
        assert(list.drop_last().take(k) =~= list.take(k));
        lemma_error_stays(list.drop_last(), k);
    }
}

/// What is selected lies above the watermark, and is no more than what was
/// listed.
pub proof fn lemma_newer_than_ids(list: Seq<Execution>, last_id: int)
    ensures
        forall|i: int|
            0 <= i < newer_than(list, last_id).len() ==> (#[trigger] newer_than(
                list,
                last_id,
            )[i]).execution_id > last_id,
        newer_than(list, last_id).len() <= list.len(),
    decreases list.len(),
{
    if list.len() > 0 {
        lemma_newer_than_ids(list.drop_last(), last_id);
    }
}

/// The rows of a list carry the ids of its executions, one for one.
pub proof fn lemma_rows_keep_ids(list: Seq<Execution>)
    requires
        normalize_all(list) is Ok,
    ensures
        normalize_all(list).unwrap().len() == list.len(),
        forall|i: int|
            0 <= i < list.len() ==> (#[trigger] normalize_all(list).unwrap()[i]).execution_id
                == list[i].execution_id,
    decreases list.len(),
{
    if list.len() > 0 {
        lemma_rows_keep_ids(list.drop_last());
    }
}

/// The batch of an incremental sync: the rows of the listed executions above
/// the watermark, in the venue's order. One execution that has no row fails the
/// whole batch.
pub fn new_executions(last_id: i64, data: &Option<ExecutionData>) -> (r: Result<
    Vec<MyExecutions>,
    NormalizeError,
>)
    ensures
        batch_view(r) == normalize_all(newer_than(listed(*data), last_id as int)),
        r matches Ok(rows) ==> forall|i: int|
            0 <= i < rows@.len() ==> (#[trigger] rows@[i]).execution_id > last_id,
{
    let mut out: Vec<MyExecutions> = Vec::new();
    let list: &Vec<Execution> = match data {
        Some(d) => match &d.list {
            Some(l) => l,
            None => {
                assert(execution_rows(out@) =~= Seq::empty());
                return Ok(out);
            },
        },
        None => {
            assert(execution_rows(out@) =~= Seq::empty());
            return Ok(out);
        },
    };
    let ghost all = list@;
    let mut failure: Option<NormalizeError> = None;
    let n: usize = list.len();
    let mut i: usize = 0;
    assert(execution_rows(out@) =~= Seq::empty());
    while i < n
        invariant
            n == list@.len(),
            all == list@,
            0 <= i <= n,
            normalize_all(newer_than(all.take(i as int), last_id as int)) == (match failure {
                Some(e) => Err(e),
                None => Ok(execution_rows(out@)),
            }),
            forall|j: int| 0 <= j < out@.len() ==> (#[trigger] out@[j]).execution_id > last_id,
        decreases n - i,
    {
        let e = &list[i];
        proof {
            assert(all.take(i + 1).drop_last() =~= all.take(i as int));
            assert(all.take(i + 1).last() == *e);
            let before = newer_than(all.take(i as int), last_id as int);
            if e.execution_id > last_id {
                assert(before.push(*e).drop_last() =~= before);
            }
        }
        if e.execution_id > last_id && failure.is_none() {
            match convert_my_executions(e) {
                Ok(row) => {
                    let ghost rows = execution_rows(out@);
                    out.push(row);
                    assert(execution_rows(out@) =~= rows.push(row@));
                },
                Err(err) => {
                    failure = Some(err);
                },
            }
        }
        i = i + 1;
    }
    proof {
        assert(all.take(n as int) =~= all);
    }
    match failure {
        Some(e) => Err(e),
        None => Ok(out),
    }
}

/// A sync writes nothing that the store holds. Let the store hold executions
/// with the ids `stored`, let `max_id` be their greatest, or nothing where
/// there is none, and let the venue list `fetched`. Then every row that a sync
/// from that watermark writes has an id above the watermark, and so above every
/// stored id: what an earlier sync wrote, a later one leaves out.
pub proof fn lemma_sync_skips_stored(stored: Seq<int>, max_id: Option<i64>, fetched: Seq<Execution>)
    requires
        stored.len() == 0 ==> max_id is None,
        stored.len() > 0 ==> max_id is Some && forall|j: int|
            0 <= j < stored.len() ==> stored[j] <= max_id.unwrap(),
        normalize_all(newer_than(fetched, watermark_spec(max_id))) is Ok,
    ensures
        forall|i: int, j: int|
            0 <= i < written_spec(max_id, fetched).len() && 0 <= j < stored.len()
                ==> (#[trigger] written_spec(max_id, fetched)[i]).execution_id > watermark_spec(
                max_id,
            ) >= #[trigger] stored[j],
        forall|i: int|
            0 <= i < written_spec(max_id, fetched).len() ==> (#[trigger] written_spec(
                max_id,
                fetched,
            )[i]).execution_id > watermark_spec(max_id),
{
    let last_id = watermark_spec(max_id);
    lemma_newer_than_ids(fetched, last_id);
    lemma_rows_keep_ids(newer_than(fetched, last_id));
}

} // verus!
