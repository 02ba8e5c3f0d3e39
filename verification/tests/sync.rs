use gmo_sync::cost_basis::PositionState;
use gmo_sync::decimal::Decimal;
use gmo_sync::gmo::{Execution, ExecutionData};
use gmo_sync::models::Positions;
use gmo_sync::normalize::NormalizeError;
use gmo_sync::sync::{
    new_executions, normalize_list, resolve_cost_basis_watermark, resolve_execution_watermark,
    CostBasisWatermark,
};

fn execution(id: i64) -> Execution {
    Execution {
        execution_id: id,
        order_id: 1,
        symbol: "BTC".to_string(),
        side: "SELL".to_string(),
        settle_type: "CLOSE".to_string(),
        size: "0.01".to_string(),
        price: "3000000".to_string(),
        loss_gain: "0".to_string(),
        fee: "0".to_string(),
        timestamp: "2024-05-01T00:00:00Z".to_string(),
    }
}

fn data(ids: &[i64]) -> Option<ExecutionData> {
    Some(ExecutionData { list: Some(ids.iter().map(|id| execution(*id)).collect()) })
}

#[test]
fn execution_watermark_is_the_greatest_id_or_zero() {
    assert_eq!(resolve_execution_watermark(Some(42)), 42);
    assert_eq!(resolve_execution_watermark(None), 0);
}

#[test]
fn cost_basis_watermark_is_the_latest_checkpoint() {
    let initial = PositionState {
        cum_size: Decimal { units: 356_411_930_000 },
        avg_price: Decimal { units: 2_931_351_000_000_000_000 },
    };
    let latest = Positions {
        timestamp: "2024-05-01 00:00:00".to_string(),
        execution_id: 77,
        average_price: Decimal { units: 5 },
        size: Decimal { units: 9 },
    };
    assert_eq!(
        resolve_cost_basis_watermark(Some(&latest), initial),
        CostBasisWatermark {
            last_id: 77,
            state: PositionState { cum_size: Decimal { units: 9 }, avg_price: Decimal { units: 5 } },
        }
    );
}

#[test]
fn cost_basis_watermark_of_an_empty_store_is_the_initial_position() {
    let initial = PositionState {
        cum_size: Decimal { units: 356_411_930_000 },
        avg_price: Decimal { units: 2_931_351_000_000_000_000 },
    };
    assert_eq!(
        resolve_cost_basis_watermark(None, initial),
        CostBasisWatermark { last_id: 0, state: initial }
    );
    let zero = PositionState { cum_size: Decimal { units: 0 }, avg_price: Decimal { units: 0 } };
    assert_eq!(
        resolve_cost_basis_watermark(None, zero),
        CostBasisWatermark { last_id: 0, state: zero }
    );
}

#[test]
fn sync_writes_only_what_is_above_the_watermark() {
    let rows = new_executions(5, &data(&[4, 5, 6, 7])).unwrap();
    assert_eq!(rows.len(), 2);
    assert_eq!(rows[0].execution_id, 6);
    assert_eq!(rows[1].execution_id, 7);
    assert_eq!(rows[0].timestamp, "2024-05-01 00:00:00");
}

#[test]
fn sync_keeps_the_order_of_the_venue() {
    let rows = new_executions(0, &data(&[9, 3, 7, 1])).unwrap();
    let ids: Vec<i64> = rows.iter().map(|r| r.execution_id).collect();
    assert_eq!(ids, vec![9, 3, 7, 1]);
}

#[test]
fn second_sync_writes_nothing_again() {
    let fetched = data(&[4, 5, 6, 7]);
    let first = new_executions(resolve_execution_watermark(Some(5)), &fetched).unwrap();
    let greatest = first.iter().map(|r| r.execution_id).max();
    let second = new_executions(resolve_execution_watermark(greatest), &fetched).unwrap();
    assert!(second.is_empty());
    let later = new_executions(resolve_execution_watermark(greatest), &data(&[6, 7, 8])).unwrap();
    assert!(later.iter().all(|r| r.execution_id > 7));
    assert_eq!(later.len(), 1);
}

#[test]
fn sync_of_nothing_is_an_empty_batch() {
    assert_eq!(new_executions(5, &None), Ok(Vec::new()));
    assert_eq!(new_executions(5, &Some(ExecutionData { list: None })), Ok(Vec::new()));
    assert_eq!(new_executions(5, &data(&[])), Ok(Vec::new()));
    assert_eq!(new_executions(5, &data(&[1, 2, 5])), Ok(Vec::new()));
}

#[test]
fn one_bad_record_fails_the_batch() {
    let mut d = data(&[6, 7, 8]);
    d.as_mut().unwrap().list.as_mut().unwrap()[1].timestamp = "bad".to_string();
    assert_eq!(new_executions(5, &d), Err(NormalizeError::MalformedTimestamp));
    let mut d = data(&[6, 7, 8]);
    d.as_mut().unwrap().list.as_mut().unwrap()[2].price = "bad".to_string();
    d.as_mut().unwrap().list.as_mut().unwrap()[1].timestamp = "bad".to_string();
    assert_eq!(new_executions(5, &d), Err(NormalizeError::MalformedTimestamp));
    let mut d = data(&[6, 7, 8]);
    d.as_mut().unwrap().list.as_mut().unwrap()[0].price = "bad".to_string();
    d.as_mut().unwrap().list.as_mut().unwrap()[1].timestamp = "bad".to_string();
    assert_eq!(new_executions(5, &d), Err(NormalizeError::MalformedNumeric));
}

#[test]
fn a_bad_record_at_or_below_the_watermark_is_not_read() {
    let mut d = data(&[4, 6]);
    d.as_mut().unwrap().list.as_mut().unwrap()[0].timestamp = "bad".to_string();
    let rows = new_executions(5, &d).unwrap();
    assert_eq!(rows.len(), 1);
    assert_eq!(rows[0].execution_id, 6);
}

#[test]
fn a_list_is_normalized_in_order() {
    let list = vec![execution(3), execution(1), execution(2)];
    let rows = normalize_list(&list).unwrap();
    let ids: Vec<i64> = rows.iter().map(|r| r.execution_id).collect();
    assert_eq!(ids, vec![3, 1, 2]);
    let mut list = vec![execution(3), execution(1)];
    list[1].fee = "?".to_string();
    assert_eq!(normalize_list(&list), Err(NormalizeError::MalformedNumeric));
    assert_eq!(normalize_list(&Vec::new()), Ok(Vec::new()));
}
