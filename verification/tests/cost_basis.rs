use gmo_sync::cost_basis::{fold, fold_by_time, step, FoldError, PositionState};
use gmo_sync::decimal::{Decimal, ONE};
use gmo_sync::decimal_text::parse_decimal;
use gmo_sync::models::{MyExecutions, Positions};

fn dec(text: &str) -> Decimal {
    parse_decimal(text).unwrap()
}

fn state(cum_size: &str, avg_price: &str) -> PositionState {
    PositionState { cum_size: dec(cum_size), avg_price: dec(avg_price) }
}

fn row(id: i64, side: &str, size: &str, price: &str, timestamp: &str) -> MyExecutions {
    MyExecutions {
        execution_id: id,
        order_id: 1000 + id,
        symbol: "BTC".to_string(),
        side: side.to_string(),
        settle_type: "OPEN".to_string(),
        size: dec(size),
        price: dec(price),
        loss_gain: dec("0"),
        fee: dec("0"),
        timestamp: timestamp.to_string(),
    }
}

#[test]
fn first_buy_sets_size_and_price() {
    let next = step(state("0", "0"), &row(1, "BUY", "0.5", "3000000", "t")).unwrap();
    assert_eq!(next, state("0.5", "3000000"));
    let next = step(state("0", "0"), &row(1, "BUY", "0.00000001", "2931351.123456789", "t"));
    assert_eq!(next, Some(state("0.00000001", "2931351.123456789")));
}

#[test]
fn sell_keeps_the_average() {
    let next = step(state("10", "100"), &row(1, "SELL", "4", "250", "t")).unwrap();
    assert_eq!(next, state("6", "100"));
    let next = step(state("10", "100"), &row(1, "SELL", "10", "250", "t")).unwrap();
    assert_eq!(next, state("0", "100"));
}

#[test]
fn buy_takes_the_weighted_average() {
    let next = step(state("10", "100"), &row(1, "BUY", "10", "200", "t")).unwrap();
    assert_eq!(next, state("20", "150"));
}

#[test]
fn buy_average_is_rounded_to_the_nearest_unit() {
    // (1 * 1 + 0 * 2) / 3 = 0.333333333333...
    let next = step(state("2", "0"), &row(1, "BUY", "1", "1", "t")).unwrap();
    assert_eq!(next, state("3", "0.333333333333"));
    // (2 * 1 + 0 * 1) / 3 = 0.666666666666... rounds up.
    let next = step(state("1", "0"), &row(1, "BUY", "2", "1", "t")).unwrap();
    assert_eq!(next, state("3", "0.666666666667"));
}

#[test]
fn side_other_than_buy_is_a_sell() {
    let next = step(state("10", "100"), &row(1, "buy", "4", "250", "t")).unwrap();
    assert_eq!(next, state("6", "100"));
}

#[test]
fn buy_that_closes_a_short_keeps_the_average() {
    let next = step(state("-2", "100"), &row(1, "BUY", "2", "250", "t")).unwrap();
    assert_eq!(next, state("0", "100"));
}

#[test]
fn step_out_of_range_is_none() {
    let huge = PositionState { cum_size: Decimal { units: i128::MAX }, avg_price: dec("1") };
    assert_eq!(step(huge, &row(1, "BUY", "1", "1", "t")), None);
    let low = PositionState { cum_size: Decimal { units: -i128::MAX }, avg_price: dec("1") };
    assert_eq!(step(low, &row(1, "SELL", "1", "1", "t")), None);
    let big_price = row(1, "BUY", "100000000000000", "100000000000000", "t");
    assert_eq!(step(state("1", "1"), &big_price), None);
}

#[test]
fn fold_writes_one_checkpoint_per_execution() {
    let rows = vec![
        row(11, "BUY", "10", "200", "2024-01-01 00:00:00"),
        row(12, "SELL", "5", "999", "2024-01-01 00:00:01"),
        row(13, "BUY", "5", "300", "2024-01-01 00:00:02"),
    ];
    let out = fold(state("10", "100"), &rows).unwrap();
    assert_eq!(
        out,
        vec![
            Positions {
                timestamp: "2024-01-01 00:00:00".to_string(),
                execution_id: 11,
                average_price: dec("150"),
                size: dec("20"),
            },
            Positions {
                timestamp: "2024-01-01 00:00:01".to_string(),
                execution_id: 12,
                average_price: dec("150"),
                size: dec("15"),
            },
            Positions {
                timestamp: "2024-01-01 00:00:02".to_string(),
                execution_id: 13,
                average_price: dec("187.5"),
                size: dec("20"),
            },
        ]
    );
}

#[test]
fn fold_of_nothing_is_empty() {
    assert_eq!(fold(state("1", "2"), &Vec::new()), Ok(Vec::new()));
}

#[test]
fn fold_is_repeatable() {
    let rows = vec![
        row(1, "BUY", "0.3", "2900000", "a"),
        row(2, "SELL", "0.1", "3100000", "b"),
        row(3, "BUY", "0.07", "3000001", "c"),
    ];
    let seed = state("0.35641193", "2931351");
    assert_eq!(fold(seed, &rows), fold(seed, &rows));
}

#[test]
fn checkpoint_size_is_rounded_and_the_register_is_not() {
    let rows = vec![
        row(1, "BUY", "0.123456789", "100", "a"),
        row(2, "BUY", "0.000000001", "100", "b"),
    ];
    let out = fold(state("0", "0"), &rows).unwrap();
    assert_eq!(out[0].size, dec("0.12345679"));
    // 0.123456789 + 0.000000001 = 0.12345679; from the rounded size it would be 0.123456791.
    assert_eq!(out[1].size, dec("0.12345679"));
    assert_eq!(out[0].average_price, dec("100"));
    let rows = vec![row(1, "SELL", "0.123456785", "100", "a")];
    let out = fold(state("0", "7"), &rows).unwrap();
    assert_eq!(out[0].size, dec("-0.12345679"));
    assert_eq!(out[0].average_price, dec("7"));
}

#[test]
fn order_of_buy_and_sell_changes_the_average() {
    let buy = row(1, "BUY", "10", "200", "2024-01-01 00:00:00");
    let sell = row(2, "SELL", "5", "200", "2024-01-01 00:00:01");
    let seed = state("10", "100");
    let buy_first = fold(seed, &vec![buy.clone(), sell.clone()]).unwrap();
    let sell_first = fold(seed, &vec![sell, buy]).unwrap();
    // (200 * 10 + 100 * 10) / 20 = 150; (200 * 10 + 100 * 5) / 15 = 166.666...
    assert_eq!(buy_first[1].average_price, dec("150"));
    assert_eq!(sell_first[1].average_price, dec("166.666666666667"));
    assert_ne!(buy_first[1].average_price, sell_first[1].average_price);
    assert_eq!(buy_first[1].size, sell_first[1].size);
}

#[test]
fn fold_stops_at_the_first_execution_out_of_range() {
    let mut big = row(2, "BUY", "1", "1", "b");
    big.size = Decimal { units: i128::MAX };
    let rows = vec![row(1, "BUY", "1", "1", "a"), big, row(3, "SELL", "1", "1", "c")];
    assert_eq!(fold(state("1", "1"), &rows), Err(FoldError::Overflow { index: 1 }));
}

#[test]
fn fold_stops_where_the_rounded_size_is_out_of_range() {
    let mut big = row(1, "BUY", "1", "1", "a");
    big.size = Decimal { units: i128::MAX - ONE };
    big.price = Decimal { units: 0 };
    let seed = PositionState { cum_size: Decimal { units: ONE }, avg_price: Decimal { units: 0 } };
    assert_eq!(fold(seed, &vec![big]), Err(FoldError::Overflow { index: 0 }));
}

#[test]
fn fold_by_time_goes_by_timestamp_not_by_id_or_arrival() {
    let seed = state("10", "100");
    let buy_late = row(1, "BUY", "10", "200", "2024-01-01 00:00:05");
    let sell_early = row(2, "SELL", "5", "200", "2024-01-01 00:00:03");
    let out = fold_by_time(seed, vec![buy_late.clone(), sell_early.clone()]).unwrap();
    assert_eq!(out[0].execution_id, 2);
    assert_eq!(out[1].execution_id, 1);
    assert_eq!(out[1].average_price, dec("166.666666666667"));
    let same = fold_by_time(seed, vec![sell_early.clone(), buy_late.clone()]).unwrap();
    assert_eq!(out, same);

    // The same two executions with their timestamps exchanged.
    let buy_early = row(1, "BUY", "10", "200", "2024-01-01 00:00:03");
    let sell_late = row(2, "SELL", "5", "200", "2024-01-01 00:00:05");
    let other = fold_by_time(seed, vec![sell_late, buy_early]).unwrap();
    assert_eq!(other[1].average_price, dec("150"));
    assert_ne!(out[1].average_price, other[1].average_price);
}

#[test]
fn fold_by_time_keeps_the_order_of_equal_timestamps() {
    let seed = state("10", "100");
    let rows = vec![
        row(5, "BUY", "10", "200", "2024-01-01 00:00:03"),
        row(4, "SELL", "5", "200", "2024-01-01 00:00:03"),
        row(3, "SELL", "1", "200", "2024-01-01 00:00:01"),
    ];
    let out = fold_by_time(seed, rows).unwrap();
    let ids: Vec<i64> = out.iter().map(|c| c.execution_id).collect();
    assert_eq!(ids, vec![3, 5, 4]);
}

#[test]
fn fold_by_time_of_ordered_rows_is_fold() {
    let seed = state("0.35641193", "2931351");
    let rows = vec![
        row(1, "BUY", "0.3", "2900000", "2024-01-01 00:00:00"),
        row(2, "SELL", "0.1", "3100000", "2024-01-01 00:00:00"),
        row(3, "BUY", "0.07", "3000001", "2024-01-02 10:00:00"),
    ];
    assert_eq!(fold_by_time(seed, rows.clone()), fold(seed, &rows));
}
