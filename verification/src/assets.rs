//! The balance snapshot: one row for each tracked asset of an answer.

use crate::decimal_text::{decimal_of_text, parse_decimal};
use crate::gmo::Asset;
use crate::models::{balance_rows, Assets, BalanceRow};
use crate::normalize::NormalizeError;
use vstd::prelude::*;
use vstd::string::StringExecFns;

verus! {

/// The assets whose balances are stored.
pub open spec fn is_tracked(symbol: Seq<char>) -> bool {
    symbol == "JPY"@ || symbol == "BTC"@
}

/// The row of one balance taken at `stamp`, or the error of a number that
/// does not parse.
pub open spec fn balance_spec(a: Asset, stamp: Seq<char>) -> Result<BalanceRow, NormalizeError> {
    if decimal_of_text(a.amount@) is Some && decimal_of_text(a.available@) is Some {
        Ok(
            BalanceRow {
                timestamp: stamp,
                symbol: a.symbol@,
                amount: decimal_of_text(a.amount@).unwrap(),
                available: decimal_of_text(a.available@).unwrap(),
            },
        )
    } else {
        Err(NormalizeError::MalformedNumeric)
    }
}

/// The rows of the tracked assets of a list, in order, or the error of the
/// first tracked asset that has no row. Other assets are passed over unread.
pub open spec fn snapshot_spec(list: Seq<Asset>, stamp: Seq<char>) -> Result<
    Seq<BalanceRow>,
    NormalizeError,
>
    decreases list.len(),
{
    if list.len() == 0 {
        Ok(Seq::empty())
    } else {
        match snapshot_spec(list.drop_last(), stamp) {
            Err(e) => Err(e),
            Ok(rows) => if is_tracked(list.last().symbol@) {
                match balance_spec(list.last(), stamp) {
                    Err(e) => Err(e),
                    Ok(row) => Ok(rows.push(row)),
                }
            } else {
                Ok(rows)
            },
        }
    }
}

/// The balances that an answer carries: none where it carries no data.
pub open spec fn balances(data: Option<Vec<Asset>>) -> Seq<Asset> {
    match data {
        Some(l) => l@,
        None => Seq::empty(),
    }
}

/// The views of a snapshot outcome.
pub open spec fn snapshot_view(r: Result<Vec<Assets>, NormalizeError>) -> Result<
    Seq<BalanceRow>,
    NormalizeError,
> {
    match r {
        Ok(rows) => Ok(balance_rows(rows@)),
        Err(e) => Err(e),
    }
}

fn is_tracked_symbol(symbol: &String) -> (r: bool)
    ensures
        r == is_tracked(symbol@),
{
    let jpy = "JPY".to_owned();
    let btc = "BTC".to_owned();
    *symbol == jpy || *symbol == btc
}

/// One balance as a row taken at `timestamp`.
pub fn balance_row(timestamp: &str, a: &Asset) -> (r: Result<Assets, NormalizeError>)
    ensures
        balance_spec(*a, timestamp@) == (match r {
            Ok(row) => Ok(row@),
            Err(e) => Err(e),
        }),
{
    let amount = parse_decimal(a.amount.as_str());
    let available = parse_decimal(a.available.as_str());
    match (amount, available) {
        (Some(amount), Some(available)) => Ok(
            Assets {
                timestamp: String::from_str(timestamp),
                symbol: a.symbol.clone(),
                amount,
                available,
            },
        ),
        _ => Err(NormalizeError::MalformedNumeric),
    }
}

/// The snapshot of an answer taken at `timestamp`: one row for each tracked
/// asset, in the venue's order.
pub fn asset_snapshots(timestamp: &str, data: &Option<Vec<Asset>>) -> (r: Result<
    Vec<Assets>,
    NormalizeError,
>)
    ensures
        snapshot_view(r) == snapshot_spec(balances(*data), timestamp@),
{
    let mut out: Vec<Assets> = Vec::new();
    assert(balance_rows(out@) =~= Seq::empty());
    let list: &Vec<Asset> = match data {
        Some(l) => l,
        None => { return Ok(out); },
    };
    let mut failure: Option<NormalizeError> = None;
    let n: usize = list.len();
    let mut i: usize = 0;
    while i < n
        invariant
            n == list@.len(),
            0 <= i <= n,
            snapshot_spec(list@.take(i as int), timestamp@) == (match failure {
                Some(e) => Err(e),
                None => Ok(balance_rows(out@)),
            }),
        decreases n - i,
    {
        let a = &list[i];
        proof {
            assert(list@.take(i + 1).drop_last() =~= list@.take(i as int));
            assert(list@.take(i + 1).last() == *a);
        }
        if failure.is_none() && is_tracked_symbol(&a.symbol) {
            match balance_row(timestamp, a) {
                Ok(row) => {
                    let ghost rows = balance_rows(out@);
                    out.push(row);
                    assert(balance_rows(out@) =~= rows.push(row@));
                },
                Err(err) => {
                    failure = Some(err);
                },
            }
        }
        i = i + 1;
    }
    proof {
        assert(list@.take(n as int) =~= list@);
    }
    match failure {
        Some(e) => Err(e),
        None => Ok(out),
    }
}

} // verus!
