use gmo_sync::assets::{asset_snapshots, balance_row};
use gmo_sync::decimal::{Decimal, ONE};
use gmo_sync::gmo::Asset;
use gmo_sync::models::Assets;
use gmo_sync::normalize::NormalizeError;

fn asset(symbol: &str, amount: &str, available: &str) -> Asset {
    Asset {
        amount: amount.to_string(),
        available: available.to_string(),
        conversion_rate: "1".to_string(),
        symbol: symbol.to_string(),
    }
}

#[test]
fn snapshot_holds_the_tracked_assets() {
    let data = Some(vec![
        asset("JPY", "993982448", "993982448"),
        asset("ETH", "20.48", "20.48"),
        asset("BTC", "4.0002", "4.0001"),
    ]);
    let rows = asset_snapshots("2024-05-01 10:00:00", &data).unwrap();
    assert_eq!(
        rows,
        vec![
            Assets {
                timestamp: "2024-05-01 10:00:00".to_string(),
                symbol: "JPY".to_string(),
                amount: Decimal { units: 993_982_448 * ONE },
                available: Decimal { units: 993_982_448 * ONE },
            },
            Assets {
                timestamp: "2024-05-01 10:00:00".to_string(),
                symbol: "BTC".to_string(),
                amount: Decimal { units: 4_000_200_000_000 },
                available: Decimal { units: 4_000_100_000_000 },
            },
        ]
    );
}

#[test]
fn snapshot_of_no_data_is_empty() {
    assert_eq!(asset_snapshots("t", &None), Ok(Vec::new()));
    assert_eq!(asset_snapshots("t", &Some(Vec::new())), Ok(Vec::new()));
    assert_eq!(asset_snapshots("t", &Some(vec![asset("ETH", "1", "1")])), Ok(Vec::new()));
}

#[test]
fn untracked_asset_is_not_read() {
    let data = Some(vec![asset("ETH", "oops", ""), asset("BTC", "1", "0.5")]);
    let rows = asset_snapshots("t", &data).unwrap();
    assert_eq!(rows.len(), 1);
    assert_eq!(rows[0].symbol, "BTC");
}

#[test]
fn tracked_asset_with_a_bad_number_fails_the_snapshot() {
    let data = Some(vec![asset("JPY", "1", "1"), asset("BTC", "1", "half")]);
    assert_eq!(asset_snapshots("t", &data), Err(NormalizeError::MalformedNumeric));
    assert_eq!(balance_row("t", &asset("BTC", "", "1")), Err(NormalizeError::MalformedNumeric));
}

#[test]
fn symbols_are_matched_exactly() {
    let data = Some(vec![asset("btc", "1", "1"), asset("JPY ", "1", "1"), asset("BTCJPY", "1", "1")]);
    assert_eq!(asset_snapshots("t", &data), Ok(Vec::new()));
}
