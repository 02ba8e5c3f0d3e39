//! The runs as decisions: a run says what it waits for, its caller does the
//! outside work and reports what came of it.
//!
//! A sync resolves the watermark, fetches the venue's latest executions, and
//! writes the rows above the watermark in one batch. A cost-basis run resolves
//! the latest checkpoint, reads the executions after it, and writes one
//! checkpoint for each. A balance run fetches the balances and writes one row
//! for each tracked asset. Any failure ends a run; nothing is written after
//! one, and an empty batch is not written at all.

use crate::assets::{asset_snapshots, balances, snapshot_spec};
use crate::cost_basis::{fits_through, fold_by_time, fold_spec, FoldError, PositionState};
use crate::time_order::time_sorted;
use crate::gmo::{listed, Asset, ExecutionData};
use crate::models::{balance_rows, checkpoints, execution_rows, Assets, MyExecutions, Positions};
use crate::normalize::NormalizeError;
use crate::sink::{rows_written, rows_written_spec, SinkError};
use crate::sync::{
    cost_basis_watermark_spec, new_executions, newer_than, normalize_all,
    resolve_cost_basis_watermark, resolve_execution_watermark, watermark_spec, CostBasisWatermark,
};
use vstd::prelude::*;

verus! {

/// Why a run ended without its rows written.
#[derive(Clone, Copy, Debug, PartialEq, Eq, Structural)]
pub enum PipelineError {
    /// The store did not answer the watermark query.
    WatermarkQueryFailed,
    /// The venue did not answer, or answered with an error.
    VenueFetchFailed,
    /// A record's timestamp is not RFC 3339.
    MalformedTimestamp,
    /// A record's number is not decimal text in range.
    MalformedNumeric,
    /// The execution at `index` of the batch leads to a quantity out of range.
    QuantityOutOfRange { index: usize },
    /// The store rejected the batch.
    SinkWriteFailed,
}

/// The state of a run: what it waits for, or how it ended.
#[derive(Debug, PartialEq)]
pub enum SyncRun {
    /// Waiting for the greatest execution id in the store.
    AwaitingWatermark,
    /// Waiting for the venue's latest executions.
    AwaitingExecutions { last_id: i64 },
    /// Waiting for the store to take the batch, which is not empty.
    AwaitingWrite { rows: Vec<MyExecutions> },
    /// Ended, with the number of rows written or the failure.
    Done { outcome: Result<usize, PipelineError> },
}

/// The failure of a run whose record has no row.
pub open spec fn normalize_failure_spec(e: NormalizeError) -> PipelineError {
    match e {
        NormalizeError::MalformedTimestamp => PipelineError::MalformedTimestamp,
        NormalizeError::MalformedNumeric => PipelineError::MalformedNumeric,
    }
}

/// The failure of a run whose record has no row.
pub fn normalize_failure(e: NormalizeError) -> (r: PipelineError)
    ensures
        r == normalize_failure_spec(e),
{
    match e {
        NormalizeError::MalformedTimestamp => PipelineError::MalformedTimestamp,
        NormalizeError::MalformedNumeric => PipelineError::MalformedNumeric,
    }
}

/// The outcome of a batch write as the outcome of a run.
pub open spec fn write_outcome_spec(r: Result<usize, SinkError>) -> Result<usize, PipelineError> {
    match r {
        Ok(n) => Ok(n),
        Err(SinkError::SinkWriteFailed) => Err(PipelineError::SinkWriteFailed),
    }
}

/// The outcome of a run whose batch of `row_count` rows was handed to the
/// store and taken, or rejected.
pub open spec fn run_outcome_spec(row_count: nat, succeeded: bool) -> Result<usize, PipelineError> {
    write_outcome_spec(rows_written_spec(row_count as usize, succeeded))
}

/// The outcome of a batch write as the outcome of a run.
pub fn write_outcome(r: Result<usize, SinkError>) -> (outcome: Result<usize, PipelineError>)
    ensures
        outcome == write_outcome_spec(r),
{
    match r {
        Ok(n) => Ok(n),
        Err(SinkError::SinkWriteFailed) => Err(PipelineError::SinkWriteFailed),
    }
}

impl SyncRun {
    /// A batch that waits to be written holds a row.
    pub open spec fn wf(&self) -> bool {
        self matches SyncRun::AwaitingWrite { rows } ==> rows@.len() > 0
    }

    /// A run at its beginning.
    pub fn start() -> (run: SyncRun)
        ensures
            run is AwaitingWatermark,
            run.wf(),
    {
        SyncRun::AwaitingWatermark
    }

    /// Takes in the answer to the watermark query: `None` where the query
    /// failed, else the greatest execution id in the store, if it holds any.
    /// A failed query ends the run before anything is fetched. A run that
    /// waits for something else stays as it is.
    pub fn watermark_resolved(self, answer: Option<Option<i64>>) -> (next: SyncRun)
        ensures
            self.wf() ==> next.wf(),
            next == (match self {
                SyncRun::AwaitingWatermark => match answer {
                    None => SyncRun::Done { outcome: Err(PipelineError::WatermarkQueryFailed) },
                    Some(max_id) => SyncRun::AwaitingExecutions {
                        last_id: watermark_spec(max_id) as i64,
                    },
                },
                _ => self,
            }),
    {
        match self {
            SyncRun::AwaitingWatermark => match answer {
                None => SyncRun::Done { outcome: Err(PipelineError::WatermarkQueryFailed) },
                Some(max_id) => SyncRun::AwaitingExecutions {
                    last_id: resolve_execution_watermark(max_id),
                },
            },
            other => other,
        }
    }

    /// Takes in the venue's answer: `None` where the fetch failed, else the
    /// data of the answer. A failed fetch and a record without a row end the
    /// run with nothing written. Where no execution is above the watermark the
    /// run ends with zero rows written and the store is not asked. Otherwise
    /// the rows above the watermark wait to be written, in the venue's order.
    /// A run that waits for something else stays as it is.
    pub fn executions_fetched(self, answer: Option<&Option<ExecutionData>>) -> (next: SyncRun)
        ensures
            self.wf() ==> next.wf(),
            !(self is AwaitingExecutions) ==> next == self,
            self matches SyncRun::AwaitingExecutions { last_id } ==> match answer {
                None => next == (SyncRun::Done { outcome: Err(PipelineError::VenueFetchFailed) }),
                Some(data) => match normalize_all(newer_than(listed(*data), last_id as int)) {
                    Err(e) => next == (SyncRun::Done { outcome: Err(normalize_failure_spec(e)) }),
                    Ok(batch) => if batch.len() == 0 {
                        next == (SyncRun::Done { outcome: Ok(0) })
                    } else {
                        &&& next matches SyncRun::AwaitingWrite { rows }
                        &&& execution_rows(rows@) == batch
                        &&& forall|i: int|
                            0 <= i < rows@.len() ==> (#[trigger] rows@[i]).execution_id > last_id
                    },
                },
            },
    {
        match self {
            SyncRun::AwaitingExecutions { last_id } => match answer {
                None => SyncRun::Done { outcome: Err(PipelineError::VenueFetchFailed) },
                Some(data) => match new_executions(last_id, data) {
                    Err(e) => SyncRun::Done { outcome: Err(normalize_failure(e)) },
                    Ok(rows) => {
                        assert(execution_rows(rows@).len() == rows@.len());
                        if rows.len() == 0 {
                            SyncRun::Done { outcome: Ok(0) }
                        } else {
                            SyncRun::AwaitingWrite { rows }
                        }
                    },
                },
            },
            other => other,
        }
    }

    /// Takes in the end of the batch write. The run ends with the number of
    /// rows of the batch, or, where the store rejected it, with the failure.
    /// A run that waits for something else stays as it is.
    pub fn written(self, succeeded: bool) -> (next: SyncRun)
        ensures
            self.wf() ==> next.wf(),
            next == (match self {
                SyncRun::AwaitingWrite { rows } => SyncRun::Done {
                    outcome: run_outcome_spec(rows@.len(), succeeded),
                },
                _ => self,
            }),
    {
        match self {
            SyncRun::AwaitingWrite { rows } => SyncRun::Done {
                outcome: write_outcome(rows_written(rows.len(), succeeded)),
            },
            other => other,
        }
    }
}

/// The state of a cost-basis run.
#[derive(Debug, PartialEq)]
pub enum CostBasisRun {
    /// Waiting for the latest checkpoint in the store.
    AwaitingCheckpoint { initial: PositionState },
    /// Waiting for the stored executions above the watermark.
    AwaitingExecutions { watermark: CostBasisWatermark },
    /// Waiting for the store to take the checkpoints, of which there is one
    /// at least.
    AwaitingWrite { checkpoints: Vec<Positions> },
    /// Ended, with the number of rows written or the failure.
    Done { outcome: Result<usize, PipelineError> },
}

impl CostBasisRun {
    /// A batch that waits to be written holds a row.
    pub open spec fn wf(&self) -> bool {
        self matches CostBasisRun::AwaitingWrite { checkpoints } ==> checkpoints@.len() > 0
    }

    /// A run at its beginning. `initial` is the position held before the
    /// first tracked execution; it seeds the fold where the store holds no
    /// checkpoint.
    pub fn start(initial: PositionState) -> (run: CostBasisRun)
        ensures
            run == (CostBasisRun::AwaitingCheckpoint { initial }),
            run.wf(),
    {
        CostBasisRun::AwaitingCheckpoint { initial }
    }

    /// Takes in the answer to the checkpoint query: `None` where the query
    /// failed, else the latest checkpoint, if the store holds any. A failed
    /// query ends the run. A run that waits for something else stays as it is.
    pub fn checkpoint_resolved(self, answer: Option<Option<&Positions>>) -> (next: CostBasisRun)
        ensures
            self.wf() ==> next.wf(),
            next == (match self {
                CostBasisRun::AwaitingCheckpoint { initial } => match answer {
                    None => CostBasisRun::Done {
                        outcome: Err(PipelineError::WatermarkQueryFailed),
                    },
                    Some(latest) => CostBasisRun::AwaitingExecutions {
                        watermark: cost_basis_watermark_spec(latest, initial),
                    },
                },
                _ => self,
            }),
    {
        match self {
            CostBasisRun::AwaitingCheckpoint { initial } => match answer {
                None => CostBasisRun::Done { outcome: Err(PipelineError::WatermarkQueryFailed) },
                Some(latest) => CostBasisRun::AwaitingExecutions {
                    watermark: resolve_cost_basis_watermark(latest, initial),
                },
            },
            other => other,
        }
    }

    /// Takes in the stored executions above the watermark: `None` where the
    /// query failed. They are folded in the order of their timestamps from the
    /// watermark's registers. A failed query and a fold that leaves the range
    /// end the run with nothing written. Where there is no execution the run
    /// ends with zero rows written and the store is not asked. Otherwise the
    /// checkpoints of the fold wait to be written. A run that waits for
    /// something else stays as it is.
    pub fn executions_read(self, answer: Option<Vec<MyExecutions>>) -> (next: CostBasisRun)
        ensures
            self.wf() ==> next.wf(),
            !(self is AwaitingExecutions) ==> next == self,
            self matches CostBasisRun::AwaitingExecutions { watermark } ==> match answer {
                None => next == (CostBasisRun::Done {
                    outcome: Err(PipelineError::WatermarkQueryFailed),
                }),
                Some(rows) => {
                    let ordered = time_sorted(execution_rows(rows@));
                    if !fits_through(watermark.state@, ordered) {
                        next matches CostBasisRun::Done {
                            outcome: Err(PipelineError::QuantityOutOfRange { index }),
                        } && index < rows@.len() && fits_through(
                            watermark.state@,
                            ordered.take(index as int),
                        ) && !fits_through(watermark.state@, ordered.take(index + 1))
                    } else if rows@.len() == 0 {
                        next == (CostBasisRun::Done { outcome: Ok(0) })
                    } else {
                        next matches CostBasisRun::AwaitingWrite { checkpoints: written }
                            && checkpoints(written@) == fold_spec(watermark.state@, ordered)
                    }
                },
            },
    {
        match self {
            CostBasisRun::AwaitingExecutions { watermark } => match answer {
                None => CostBasisRun::Done { outcome: Err(PipelineError::WatermarkQueryFailed) },
                Some(rows) => {
                    proof {
                        crate::time_order::lemma_time_sorted(execution_rows(rows@));
                        assert(execution_rows(rows@).len() == rows@.len());
                    }
                    match fold_by_time(watermark.state, rows) {
                        Err(FoldError::Overflow { index }) => CostBasisRun::Done {
                            outcome: Err(PipelineError::QuantityOutOfRange { index }),
                        },
                        Ok(written) => {
                            assert(checkpoints(written@).len() == written@.len());
                            if written.len() == 0 {
                                CostBasisRun::Done { outcome: Ok(0) }
                            } else {
                                CostBasisRun::AwaitingWrite { checkpoints: written }
                            }
                        },
                    }
                },
            },
            other => other,
        }
    }

    /// Takes in the end of the batch write. The run ends with the number of
    /// checkpoints of the batch, or, where the store rejected it, with the
    /// failure. A run that waits for something else stays as it is.
    pub fn written(self, succeeded: bool) -> (next: CostBasisRun)
        ensures
            self.wf() ==> next.wf(),
            next == (match self {
                CostBasisRun::AwaitingWrite { checkpoints } => CostBasisRun::Done {
                    outcome: run_outcome_spec(checkpoints@.len(), succeeded),
                },
                _ => self,
            }),
    {
        match self {
            CostBasisRun::AwaitingWrite { checkpoints } => CostBasisRun::Done {
                outcome: write_outcome(rows_written(checkpoints.len(), succeeded)),
            },
            other => other,
        }
    }
}

/// The state of a balance run.
#[derive(Debug, PartialEq)]
pub enum AssetsRun {
    /// Waiting for the venue's balances.
    AwaitingBalances,
    /// Waiting for the store to take the rows, of which there is one at least.
    AwaitingWrite { rows: Vec<Assets> },
    /// Ended, with the number of rows written or the failure.
    Done { outcome: Result<usize, PipelineError> },
}

impl AssetsRun {
    /// A batch that waits to be written holds a row.
    pub open spec fn wf(&self) -> bool {
        self matches AssetsRun::AwaitingWrite { rows } ==> rows@.len() > 0
    }

    /// A run at its beginning.
    pub fn start() -> (run: AssetsRun)
        ensures
            run is AwaitingBalances,
            run.wf(),
    {
        AssetsRun::AwaitingBalances
    }

    /// Takes in the venue's answer, received at `timestamp`: `None` where the
    /// fetch failed, else the data of the answer. A failed fetch and a tracked
    /// balance without a row end the run with nothing written. Where no
    /// tracked asset is listed the run ends with zero rows written and the
    /// store is not asked. Otherwise the rows of the tracked assets wait to be
    /// written. A run that waits for something else stays as it is.
    pub fn balances_fetched(self, timestamp: &str, answer: Option<&Option<Vec<Asset>>>) -> (next:
        AssetsRun)
        ensures
            self.wf() ==> next.wf(),
            !(self is AwaitingBalances) ==> next == self,
            self is AwaitingBalances ==> match answer {
                None => next == (AssetsRun::Done { outcome: Err(PipelineError::VenueFetchFailed) }),
                Some(data) => match snapshot_spec(balances(*data), timestamp@) {
                    Err(e) => next == (AssetsRun::Done { outcome: Err(normalize_failure_spec(e)) }),
                    Ok(batch) => if batch.len() == 0 {
                        next == (AssetsRun::Done { outcome: Ok(0) })
                    } else {
                        next matches AssetsRun::AwaitingWrite { rows } && balance_rows(rows@)
                            == batch
                    },
                },
            },
    {
        match self {
            AssetsRun::AwaitingBalances => match answer {
                None => AssetsRun::Done { outcome: Err(PipelineError::VenueFetchFailed) },
                Some(data) => match asset_snapshots(timestamp, data) {
                    Err(e) => AssetsRun::Done { outcome: Err(normalize_failure(e)) },
                    Ok(rows) => {
                        assert(balance_rows(rows@).len() == rows@.len());
                        if rows.len() == 0 {
                            AssetsRun::Done { outcome: Ok(0) }
                        } else {
                            AssetsRun::AwaitingWrite { rows }
                        }
                    },
                },
            },
            other => other,
        }
    }

    /// Takes in the end of the batch write. The run ends with the number of
    /// rows of the batch, or, where the store rejected it, with the failure.
    /// A run that waits for something else stays as it is.
    pub fn written(self, succeeded: bool) -> (next: AssetsRun)
        ensures
            self.wf() ==> next.wf(),
            next == (match self {
                AssetsRun::AwaitingWrite { rows } => AssetsRun::Done {
                    outcome: run_outcome_spec(rows@.len(), succeeded),
                },
                _ => self,
            }),
    {
        match self {
            AssetsRun::AwaitingWrite { rows } => AssetsRun::Done {
                outcome: write_outcome(rows_written(rows.len(), succeeded)),
            },
            other => other,
        }
    }
}

} // verus!
