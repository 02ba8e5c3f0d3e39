//! The backfill: the executions of a list of orders, fetched one order at a
//! time with a pause after each, and written as one batch at the end.
//!
//! The importer decides; its caller acts. The caller asks for the next
//! action, performs it, and reports what came of it. Any failure ends the
//! backfill with nothing written.

use crate::gmo::{listed, Execution, ExecutionData};
use crate::models::{execution_rows, ExecutionRow, MyExecutions};
use crate::pipeline::{
    normalize_failure, normalize_failure_spec, run_outcome_spec, write_outcome, PipelineError,
};
use crate::sink::rows_written;
use crate::sync::{normalize_all, normalize_list};
use vstd::prelude::*;

verus! {

/// The pause after each fetch, in milliseconds.
pub const PAUSE_MILLIS: u64 = 1000;

/// What the importer waits for.
#[derive(Clone, Copy, Debug, PartialEq, Eq, Structural)]
pub enum BackfillPhase {
    /// The executions of the order at the current position.
    Fetching,
    /// The end of the pause after the order at the current position.
    Pausing,
    /// The store to take the batch, which is not empty.
    Writing,
    /// Nothing: the backfill has ended.
    Done,
}

/// What the caller is to do next.
#[derive(Debug, Clone, PartialEq)]
pub enum BackfillAction {
    /// Fetch the executions of this order from the venue.
    Fetch { order_id: String },
    /// Wait this long.
    Sleep { millis: u64 },
    /// Write the batch in one insert.
    Write,
    /// Stop: the outcome is known.
    Stop,
}

/// The state of a backfill.
#[derive(Debug, PartialEq)]
pub struct Backfill {
    pub order_ids: Vec<String>,
    pub position: usize,
    pub phase: BackfillPhase,
    pub batch: Vec<MyExecutions>,
    pub outcome: Option<Result<usize, PipelineError>>,
}

impl Backfill {
    /// The position is within the list and short of its end while orders are
    /// left; a batch that waits to be written holds a row; the outcome is known
    /// exactly when the backfill has ended.
    pub open spec fn wf(&self) -> bool {
        &&& self.position <= self.order_ids@.len()
        &&& (self.phase == BackfillPhase::Fetching || self.phase == BackfillPhase::Pausing)
            ==> self.position < self.order_ids@.len()
        &&& self.phase == BackfillPhase::Writing ==> self.position == self.order_ids@.len()
            && self.batch@.len() > 0
        &&& self.phase == BackfillPhase::Done <==> self.outcome is Some
    }

    /// The rows gathered so far.
    pub open spec fn rows(&self) -> Seq<ExecutionRow> {
        execution_rows(self.batch@)
    }

    /// Whether the state is one that a backfill can be in.
    pub fn is_wf(&self) -> (r: bool)
        ensures
            r == self.wf(),
    {
        let n: usize = self.order_ids.len();
        let in_list = self.position <= n;
        let order_left = match self.phase {
            BackfillPhase::Fetching => self.position < n,
            BackfillPhase::Pausing => self.position < n,
            _ => true,
        };
        let batch_ready = match self.phase {
            BackfillPhase::Writing => self.position == n && self.batch.len() > 0,
            _ => true,
        };
        let outcome_known = match self.phase {
            BackfillPhase::Done => self.outcome.is_some(),
            _ => self.outcome.is_none(),
        };
        in_list && order_left && batch_ready && outcome_known
    }

    /// A backfill over `order_ids`, at its first order, with an empty batch.
    /// Over no orders it has ended, with zero rows written.
    pub fn start(order_ids: Vec<String>) -> (b: Backfill)
        ensures
            b.wf(),
            b.order_ids == order_ids,
            b.position == 0,
            b.batch@.len() == 0,
            order_ids@.len() > 0 ==> b.phase == BackfillPhase::Fetching && b.outcome is None,
            order_ids@.len() == 0 ==> b.phase == BackfillPhase::Done && b.outcome == Some(
                Ok::<usize, PipelineError>(0),
            ),
    {
        if order_ids.len() == 0 {
            Backfill {
                order_ids,
                position: 0,
                phase: BackfillPhase::Done,
                batch: Vec::new(),
                outcome: Some(Ok(0)),
            }
        } else {
            Backfill {
                order_ids,
                position: 0,
                phase: BackfillPhase::Fetching,
                batch: Vec::new(),
                outcome: None,
            }
        }
    }

    /// What the caller is to do in this state.
    pub fn next_action(&self) -> (a: BackfillAction)
        requires
            self.wf(),
        ensures
            match self.phase {
                BackfillPhase::Fetching => a matches BackfillAction::Fetch { order_id }
                    && order_id@ == self.order_ids@[self.position as int]@,
                BackfillPhase::Pausing => a matches BackfillAction::Sleep { millis } && millis
                    == PAUSE_MILLIS,
                BackfillPhase::Writing => a is Write,
                BackfillPhase::Done => a is Stop,
            },
    {
        match self.phase {
            BackfillPhase::Fetching => BackfillAction::Fetch {
                order_id: self.order_ids[self.position].clone(),
            },
            BackfillPhase::Pausing => BackfillAction::Sleep { millis: PAUSE_MILLIS },
            BackfillPhase::Writing => BackfillAction::Write,
            BackfillPhase::Done => BackfillAction::Stop,
        }
    }

    /// Takes in the venue's answer for the current order: `None` where the
    /// fetch failed, else the data of the answer. The rows of its executions
    /// join the batch, none being no error, and the pause begins. A failed
    /// fetch and a record without a row end the backfill. Where no answer was
    /// awaited the state stays as it was.
    pub fn fetched(&mut self, answer: Option<&Option<ExecutionData>>)
        requires
            old(self).wf(),
        ensures
            final(self).wf(),
            final(self).order_ids == old(self).order_ids,
            final(self).position == old(self).position,
            old(self).phase != BackfillPhase::Fetching ==> *final(self) == *old(self),
            old(self).phase == BackfillPhase::Fetching ==> match answer {
                None => {
                    &&& final(self).phase == BackfillPhase::Done
                    &&& final(self).outcome == Some(
                        Err::<usize, PipelineError>(PipelineError::VenueFetchFailed),
                    )
                },
                Some(data) => match normalize_all(listed(*data)) {
                    Ok(rows) => {
                        &&& final(self).phase == BackfillPhase::Pausing
                        &&& final(self).outcome is None
                        &&& final(self).rows() == old(self).rows() + rows
                    },
                    Err(e) => {
                        &&& final(self).phase == BackfillPhase::Done
                        &&& final(self).outcome == Some(
                            Err::<usize, PipelineError>(normalize_failure_spec(e)),
                        )
                    },
                },
            },
    {
        match self.phase {
            BackfillPhase::Fetching => {},
            _ => { return ; },
        }
        let data: &Option<ExecutionData> = match answer {
            Some(d) => d,
            None => {
                self.phase = BackfillPhase::Done;
                self.outcome = Some(Err(PipelineError::VenueFetchFailed));
                return ;
            },
        };
        let list: Option<&Vec<Execution>> = match data {
            Some(d) => match &d.list {
                Some(l) => Some(l),
                None => None,
            },
            None => None,
        };
        match list {
            Some(l) => match normalize_list(l) {
                Ok(rows) => {
                    let mut rows = rows;
                    let ghost before = self.rows();
                    let ghost added = execution_rows(rows@);
                    self.batch.append(&mut rows);
                    assert(self.rows() =~= before + added);
                },
                Err(e) => {
                    self.phase = BackfillPhase::Done;
                    self.outcome = Some(Err(normalize_failure(e)));
                    return ;
                },
            },
            None => {
                assert(self.rows() + Seq::<ExecutionRow>::empty() =~= self.rows());
            },
        }
        self.phase = BackfillPhase::Pausing;
    }

    /// Takes in the end of the pause: the next order is due; after the last
    /// order the batch is due to be written, or, where it is empty, the
    /// backfill has ended with zero rows written and the store is not asked.
    /// Where no pause was awaited the state stays as it was.
    pub fn slept(&mut self)
        requires
            old(self).wf(),
        ensures
            final(self).wf(),
            final(self).order_ids == old(self).order_ids,
            final(self).batch == old(self).batch,
            old(self).phase != BackfillPhase::Pausing ==> *final(self) == *old(self),
            old(self).phase == BackfillPhase::Pausing ==> {
                &&& final(self).position == old(self).position + 1
                &&& final(self).phase == (if old(self).position + 1 < old(self).order_ids@.len() {
                    BackfillPhase::Fetching
                } else if old(self).batch@.len() > 0 {
                    BackfillPhase::Writing
                } else {
                    BackfillPhase::Done
                })
                &&& final(self).outcome == (if final(self).phase == BackfillPhase::Done {
                    Some(Ok::<usize, PipelineError>(0))
                } else {
                    None
                })
            },
    {
        match self.phase {
            BackfillPhase::Pausing => {
                let n: usize = self.order_ids.len();
                self.position = self.position + 1;
                if self.position < n {
                    self.phase = BackfillPhase::Fetching;
                } else if self.batch.len() > 0 {
                    self.phase = BackfillPhase::Writing;
                } else {
                    self.phase = BackfillPhase::Done;
                    self.outcome = Some(Ok(0));
                }
            },
            _ => {},
        }
    }

    /// Takes in the end of the batch write: the backfill ends with the number
    /// of rows of the batch, or, where the store rejected it, with the
    /// failure. Where no write was awaited the state stays as it was.
    pub fn written(&mut self, succeeded: bool)
        requires
            old(self).wf(),
        ensures
            final(self).wf(),
            final(self).order_ids == old(self).order_ids,
            final(self).batch == old(self).batch,
            final(self).position == old(self).position,
            old(self).phase != BackfillPhase::Writing ==> *final(self) == *old(self),
            old(self).phase == BackfillPhase::Writing ==> {
                &&& final(self).phase == BackfillPhase::Done
                &&& final(self).outcome == Some(run_outcome_spec(old(self).batch@.len(), succeeded))
            },
    {
        match self.phase {
            BackfillPhase::Writing => {
                self.phase = BackfillPhase::Done;
                self.outcome = Some(write_outcome(rows_written(self.batch.len(), succeeded)));
            },
            _ => {},
        }
    }
}

} // verus!
