//! The batch write: what is asked of the store for a batch of rows, and what
//! the write comes to.

use vstd::prelude::*;

verus! {

/// What a batch asks of the store.
#[derive(Clone, Copy, Debug, PartialEq, Eq, Structural)]
pub enum WritePlan {
    /// The batch is empty: the store is not called.
    Nothing,
    /// The rows are appended in one insert.
    Insert,
}

/// Why a write failed.
#[derive(Clone, Copy, Debug, PartialEq, Eq, Structural)]
pub enum SinkError {
    /// The store rejected the insert.
    SinkWriteFailed,
}

/// An empty batch asks nothing of the store; any other is one insert.
pub fn plan_write(row_count: usize) -> (plan: WritePlan)
    ensures
        plan == (if row_count == 0 {
            WritePlan::Nothing
        } else {
            WritePlan::Insert
        }),
{
    if row_count == 0 {
        WritePlan::Nothing
    } else {
        WritePlan::Insert
    }
}

/// What a write of `row_count` rows comes to, where its insert, if one was
/// made, ended as `insert_succeeded` says.
pub open spec fn rows_written_spec(row_count: usize, insert_succeeded: bool) -> Result<
    usize,
    SinkError,
> {
    if row_count == 0 {
        Ok(0usize)
    } else if insert_succeeded {
        Ok(row_count)
    } else {
        Err(SinkError::SinkWriteFailed)
    }
}

/// The number of rows written by a batch of `row_count` rows whose insert,
/// where one was made, ended as `insert_succeeded` says. An empty batch
/// writes zero rows and cannot fail.
pub fn rows_written(row_count: usize, insert_succeeded: bool) -> (r: Result<usize, SinkError>)
    ensures
        r == rows_written_spec(row_count, insert_succeeded),
{
    match plan_write(row_count) {
        WritePlan::Nothing => Ok(0),
        WritePlan::Insert => if insert_succeeded {
            Ok(row_count)
        } else {
            Err(SinkError::SinkWriteFailed)
        },
    }
}

} // verus!
