use gmo_sync::decimal::Decimal;
use gmo_sync::models::MyExecutions;
use gmo_sync::time_order::{comes_no_later, sort_by_time};

fn row(id: i64, timestamp: &str) -> MyExecutions {
    MyExecutions {
        execution_id: id,
        order_id: 1,
        symbol: "BTC".to_string(),
        side: "BUY".to_string(),
        settle_type: "OPEN".to_string(),
        size: Decimal { units: 1 },
        price: Decimal { units: 1 },
        loss_gain: Decimal { units: 0 },
        fee: Decimal { units: 0 },
        timestamp: timestamp.to_string(),
    }
}

fn ids(rows: &[MyExecutions]) -> Vec<i64> {
    rows.iter().map(|r| r.execution_id).collect()
}

#[test]
fn timestamps_compare_as_their_instants() {
    assert!(comes_no_later("2024-01-01 00:00:00", "2024-01-01 00:00:00"));
    assert!(comes_no_later("2024-01-01 00:00:00", "2024-01-01 00:00:01"));
    assert!(!comes_no_later("2024-01-01 00:00:01", "2024-01-01 00:00:00"));
    assert!(comes_no_later("2023-12-31 23:59:59", "2024-01-01 00:00:00"));
    assert!(!comes_no_later("2024-01-01 10:00:00", "2024-01-01 09:59:59"));
}

#[test]
fn text_compares_character_by_character() {
    assert!(comes_no_later("", ""));
    assert!(comes_no_later("", "a"));
    assert!(!comes_no_later("a", ""));
    assert!(comes_no_later("ab", "abc"));
    assert!(!comes_no_later("abc", "ab"));
    assert!(comes_no_later("abc", "b"));
    assert!(!comes_no_later("b", "abc"));
    assert!(comes_no_later("z", "é"));
    assert!(!comes_no_later("é", "z"));
}

#[test]
fn rows_are_sorted_by_timestamp() {
    let rows = vec![
        row(1, "2024-01-03 00:00:00"),
        row(2, "2024-01-01 00:00:00"),
        row(3, "2024-01-02 00:00:00"),
        row(4, "2024-01-01 12:00:00"),
    ];
    assert_eq!(ids(&sort_by_time(rows)), vec![2, 4, 3, 1]);
}

#[test]
fn rows_with_the_same_timestamp_keep_their_order() {
    let rows = vec![
        row(9, "2024-01-02 00:00:00"),
        row(7, "2024-01-01 00:00:00"),
        row(8, "2024-01-02 00:00:00"),
        row(6, "2024-01-01 00:00:00"),
        row(5, "2024-01-02 00:00:00"),
    ];
    assert_eq!(ids(&sort_by_time(rows)), vec![7, 6, 9, 8, 5]);
}

#[test]
fn sorted_rows_stay_as_they_are() {
    let rows = vec![row(3, "a"), row(1, "b"), row(2, "b"), row(0, "c")];
    assert_eq!(sort_by_time(rows.clone()), rows);
    assert_eq!(sort_by_time(Vec::new()), Vec::new());
    assert_eq!(sort_by_time(vec![row(1, "x")]), vec![row(1, "x")]);
}
