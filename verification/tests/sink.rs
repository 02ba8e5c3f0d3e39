use gmo_sync::sink::{plan_write, rows_written, SinkError, WritePlan};

#[test]
fn empty_batch_does_not_reach_the_store() {
    assert_eq!(plan_write(0), WritePlan::Nothing);
    assert_eq!(rows_written(0, true), Ok(0));
    assert_eq!(rows_written(0, false), Ok(0));
}

#[test]
fn batch_is_one_insert() {
    assert_eq!(plan_write(1), WritePlan::Insert);
    assert_eq!(plan_write(2), WritePlan::Insert);
    assert_eq!(rows_written(2, true), Ok(2));
}

#[test]
fn rejected_insert_is_a_write_failure() {
    assert_eq!(rows_written(2, false), Err(SinkError::SinkWriteFailed));
}
