use gmo_sync::backfill::{Backfill, BackfillAction, BackfillPhase, PAUSE_MILLIS};
use gmo_sync::gmo::{Execution, ExecutionData};
use gmo_sync::pipeline::PipelineError;

fn execution(id: i64, order_id: i64) -> Execution {
    Execution {
        execution_id: id,
        order_id,
        symbol: "BTC".to_string(),
        side: "BUY".to_string(),
        settle_type: "OPEN".to_string(),
        size: "0.01".to_string(),
        price: "3000000".to_string(),
        loss_gain: "0".to_string(),
        fee: "0".to_string(),
        timestamp: "2024-05-01T00:00:00Z".to_string(),
    }
}

fn answer(list: Vec<Execution>) -> Option<ExecutionData> {
    Some(ExecutionData { list: Some(list) })
}

fn ids(b: &Backfill) -> Vec<i64> {
    b.batch.iter().map(|r| r.execution_id).collect()
}

#[test]
fn backfill_fetches_pauses_and_writes() {
    let mut b = Backfill::start(vec!["100".to_string(), "200".to_string(), "300".to_string()]);
    assert_eq!(b.next_action(), BackfillAction::Fetch { order_id: "100".to_string() });
    b.fetched(Some(&answer(vec![execution(1, 100), execution(2, 100)])));
    assert_eq!(b.next_action(), BackfillAction::Sleep { millis: 1000 });
    b.slept();
    assert_eq!(b.next_action(), BackfillAction::Fetch { order_id: "200".to_string() });
    b.fetched(Some(&None));
    assert_eq!(b.next_action(), BackfillAction::Sleep { millis: PAUSE_MILLIS });
    b.slept();
    assert_eq!(b.next_action(), BackfillAction::Fetch { order_id: "300".to_string() });
    b.fetched(Some(&answer(vec![execution(3, 300)])));
    assert_eq!(b.next_action(), BackfillAction::Sleep { millis: 1000 });
    b.slept();
    assert_eq!(b.next_action(), BackfillAction::Write);
    assert_eq!(ids(&b), vec![1, 2, 3]);
    assert_eq!(b.outcome, None);
    b.written(true);
    assert_eq!(b.next_action(), BackfillAction::Stop);
    assert_eq!(b.outcome, Some(Ok(3)));
}

#[test]
fn pause_is_a_second_at_least() {
    assert!(PAUSE_MILLIS >= 1000);
}

#[test]
fn backfill_of_no_orders_ends_at_once() {
    let b = Backfill::start(Vec::new());
    assert_eq!(b.phase, BackfillPhase::Done);
    assert_eq!(b.next_action(), BackfillAction::Stop);
    assert_eq!(b.outcome, Some(Ok(0)));
}

#[test]
fn orders_without_executions_write_nothing() {
    let mut b = Backfill::start(vec!["100".to_string(), "200".to_string()]);
    b.fetched(Some(&Some(ExecutionData { list: None })));
    assert_eq!(b.phase, BackfillPhase::Pausing);
    b.slept();
    assert_eq!(b.phase, BackfillPhase::Fetching);
    b.fetched(Some(&answer(Vec::new())));
    b.slept();
    assert_eq!(b.phase, BackfillPhase::Done);
    assert_eq!(b.next_action(), BackfillAction::Stop);
    assert_eq!(b.outcome, Some(Ok(0)));
}

#[test]
fn bad_record_ends_the_backfill() {
    let mut b = Backfill::start(vec!["100".to_string(), "200".to_string()]);
    b.fetched(Some(&answer(vec![execution(1, 100)])));
    b.slept();
    let mut bad = execution(3, 200);
    bad.size = "?".to_string();
    b.fetched(Some(&answer(vec![execution(2, 200), bad])));
    assert_eq!(b.next_action(), BackfillAction::Stop);
    assert_eq!(b.outcome, Some(Err(PipelineError::MalformedNumeric)));
    let mut late = execution(4, 200);
    late.timestamp = "?".to_string();
    let mut b = Backfill::start(vec!["100".to_string()]);
    b.fetched(Some(&answer(vec![late])));
    assert_eq!(b.outcome, Some(Err(PipelineError::MalformedTimestamp)));
}

#[test]
fn failed_fetch_ends_the_backfill() {
    let mut b = Backfill::start(vec!["100".to_string(), "200".to_string()]);
    b.fetched(Some(&answer(vec![execution(1, 100)])));
    b.slept();
    b.fetched(None);
    assert_eq!(b.next_action(), BackfillAction::Stop);
    assert_eq!(b.outcome, Some(Err(PipelineError::VenueFetchFailed)));
}

#[test]
fn rejected_write_ends_the_backfill() {
    let mut b = Backfill::start(vec!["100".to_string()]);
    b.fetched(Some(&answer(vec![execution(1, 100)])));
    b.slept();
    assert_eq!(b.next_action(), BackfillAction::Write);
    b.written(false);
    assert_eq!(b.outcome, Some(Err(PipelineError::SinkWriteFailed)));
}

#[test]
fn events_that_were_not_awaited_change_nothing() {
    let mut b = Backfill::start(vec!["100".to_string()]);
    b.slept();
    b.written(true);
    assert_eq!(b, Backfill::start(vec!["100".to_string()]));
    b.fetched(Some(&answer(vec![execution(1, 100)])));
    assert_eq!(b.phase, BackfillPhase::Pausing);
    b.fetched(Some(&answer(vec![execution(2, 100)])));
    b.written(true);
    assert_eq!(b.phase, BackfillPhase::Pausing);
    assert_eq!(ids(&b), vec![1]);
    b.slept();
    b.written(true);
    b.slept();
    b.fetched(None);
    b.written(false);
    assert_eq!(b.outcome, Some(Ok(1)));
}

#[test]
fn states_of_a_backfill_are_well_formed() {
    let mut b = Backfill::start(vec!["100".to_string()]);
    assert!(b.is_wf());
    b.fetched(Some(&answer(vec![execution(1, 100)])));
    assert!(b.is_wf());
    b.slept();
    assert!(b.is_wf());
    b.written(true);
    assert!(b.is_wf());
    let mut broken = Backfill::start(vec!["100".to_string()]);
    broken.position = 1;
    assert!(!broken.is_wf());
    let mut broken = Backfill::start(vec!["100".to_string()]);
    broken.phase = BackfillPhase::Writing;
    assert!(!broken.is_wf());
    let mut broken = Backfill::start(vec!["100".to_string()]);
    broken.outcome = Some(Ok(0));
    assert!(!broken.is_wf());
}
