//! From a venue execution to a row of the execution table.

use crate::decimal::Decimal;
use crate::decimal_text::{decimal_of_text, parse_decimal};
use crate::gmo::{Execution, TickerData};
use crate::models::{ExecutionRow, MyExecutions, Ticker};
use vstd::prelude::*;

verus! {

/// The wall-clock layout of stored timestamps: date and time to the second.
pub const WALL_CLOCK_FORMAT: &'static str = "%Y-%m-%d %H:%M:%S";

/// Why a venue record cannot become a row.
#[derive(Clone, Copy, Debug, PartialEq, Eq, Structural)]
pub enum NormalizeError {
    /// The timestamp is not RFC 3339.
    MalformedTimestamp,
    /// A number is not decimal text, or is out of range.
    MalformedNumeric,
}

/// The instant that RFC 3339 text names, in whole seconds since the Unix
/// epoch, as chrono reads it; `None` where chrono rejects the text.
pub uninterp spec fn rfc3339_epoch_seconds(text: Seq<char>) -> Option<int>;

/// The text that chrono writes for an instant in UTC under a format; `None`
/// where the instant is outside the dates that chrono can hold.
pub uninterp spec fn utc_formatted(seconds: int, format: Seq<char>) -> Option<Seq<char>>;

/// Calls `chrono::DateTime::parse_from_rfc3339` and hands back the parsed
/// instant as `DateTime::timestamp` gives it. The contract only names the
/// outcome: which texts chrono accepts and which instant each names is
/// chrono's matter.
#[verifier::external_body]
fn parse_rfc3339(text: &str) -> (r: Option<i64>)
    ensures
        rfc3339_epoch_seconds(text@) == (match r {
            Some(t) => Some(t as int),
            None => None,
        }),
{
    match chrono::DateTime::parse_from_rfc3339(text) {
        Ok(instant) => Some(instant.timestamp()),
        Err(_) => None,
    }
}

/// Calls `chrono::DateTime::from_timestamp` and `DateTime::format` on its
/// result. The contract only names the outcome. The format is held to the
/// wall-clock layout, which chrono can always write.
#[verifier::external_body]
fn format_utc(seconds: i64, format: &str) -> (r: Option<String>)
    requires
        format@ == WALL_CLOCK_FORMAT@,
    ensures
        utc_formatted(seconds as int, format@) == (match r {
            Some(s) => Some(s@),
            None => None,
        }),
{
    match chrono::DateTime::from_timestamp(seconds, 0) {
        Some(instant) => Some(instant.format(format).to_string()),
        None => None,
    }
}

/// The stored form of a venue timestamp: its instant, in UTC, in the
/// wall-clock layout.
pub open spec fn wall_clock_spec(text: Seq<char>) -> Option<Seq<char>> {
    match rfc3339_epoch_seconds(text) {
        Some(t) => utc_formatted(t, WALL_CLOCK_FORMAT@),
        None => None,
    }
}

/// Rewrites an RFC 3339 timestamp as UTC wall-clock text. `None` where the
/// text is not RFC 3339 or its instant cannot be written.
pub fn wall_clock(text: &str) -> (r: Option<String>)
    ensures
        wall_clock_spec(text@) == (match r {
            Some(s) => Some(s@),
            None => None,
        }),
{
    match parse_rfc3339(text) {
        Some(t) => format_utc(t, WALL_CLOCK_FORMAT),
        None => None,
    }
}

/// Whether each number of an execution is decimal text in range.
pub open spec fn numbers_parse(e: Execution) -> bool {
    &&& decimal_of_text(e.size@) is Some
    &&& decimal_of_text(e.price@) is Some
    &&& decimal_of_text(e.loss_gain@) is Some
    &&& decimal_of_text(e.fee@) is Some
}

/// The row of an execution whose timestamp has the stored form `stamp`.
pub open spec fn row_spec(e: Execution, stamp: Seq<char>) -> ExecutionRow {
    ExecutionRow {
        execution_id: e.execution_id as int,
        order_id: e.order_id as int,
        symbol: e.symbol@,
        side: e.side@,
        settle_type: e.settle_type@,
        size: decimal_of_text(e.size@).unwrap(),
        price: decimal_of_text(e.price@).unwrap(),
        loss_gain: decimal_of_text(e.loss_gain@).unwrap(),
        fee: decimal_of_text(e.fee@).unwrap(),
        timestamp: stamp,
    }
}

/// What becomes of an execution, given the stored form of its timestamp: a
/// timestamp that has none is reported first, then a number that does not
/// parse.
pub open spec fn normalize_with_spec(e: Execution, stamp: Option<Seq<char>>) -> Result<
    ExecutionRow,
    NormalizeError,
> {
    match stamp {
        None => Err(NormalizeError::MalformedTimestamp),
        Some(t) => if numbers_parse(e) {
            Ok(row_spec(e, t))
        } else {
            Err(NormalizeError::MalformedNumeric)
        },
    }
}

/// What becomes of an execution.
pub open spec fn normalize_spec(e: Execution) -> Result<ExecutionRow, NormalizeError> {
    normalize_with_spec(e, wall_clock_spec(e.timestamp@))
}

/// The views of an exec outcome.
pub open spec fn outcome_view(r: Result<MyExecutions, NormalizeError>) -> Result<
    ExecutionRow,
    NormalizeError,
> {
    match r {
        Ok(row) => Ok(row@),
        Err(e) => Err(e),
    }
}

/// A stored timestamp as mathematical text, where there is one.
pub open spec fn stamp_view(stamp: Option<String>) -> Option<Seq<char>> {
    match stamp {
        Some(s) => Some(s@),
        None => None,
    }
}

/// Builds the row of an execution from the stored form of its timestamp.
pub fn normalize_with(e: &Execution, stamp: Option<String>) -> (r: Result<
    MyExecutions,
    NormalizeError,
>)
    ensures
        outcome_view(r) == normalize_with_spec(*e, stamp_view(stamp)),
{
    let timestamp = match stamp {
        Some(t) => t,
        None => { return Err(NormalizeError::MalformedTimestamp); },
    };
    let size = parse_decimal(e.size.as_str());
    let price = parse_decimal(e.price.as_str());
    let loss_gain = parse_decimal(e.loss_gain.as_str());
    let fee = parse_decimal(e.fee.as_str());
    match (size, price, loss_gain, fee) {
        (Some(size), Some(price), Some(loss_gain), Some(fee)) => Ok(
            MyExecutions {
                execution_id: e.execution_id,
                order_id: e.order_id,
                symbol: e.symbol.clone(),
                side: e.side.clone(),
                settle_type: e.settle_type.clone(),
                size,
                price,
                loss_gain,
                fee,
                timestamp,
            },
        ),
        _ => Err(NormalizeError::MalformedNumeric),
    }
}

/// Turns a venue execution into a row of the execution table: the timestamp
/// becomes UTC wall-clock text, the numbers become quantities, the rest is
/// carried over.
pub fn convert_my_executions(e: &Execution) -> (r: Result<MyExecutions, NormalizeError>)
    ensures
        outcome_view(r) == normalize_spec(*e),
{
    normalize_with(e, wall_clock(e.timestamp.as_str()))
}

/// Turns a venue ticker into a row of the ticker table: the timestamp becomes
/// UTC wall-clock text and the last price a quantity. A timestamp that has no
/// stored form is reported first, then a price that does not parse.
pub fn ticker_row(t: &TickerData) -> (r: Result<Ticker, NormalizeError>)
    ensures
        match r {
            Ok(row) => {
                &&& wall_clock_spec(t.timestamp@) == Some(row.timestamp@)
                &&& decimal_of_text(t.last@) == Some(row.last@)
                &&& row.symbol@ == t.symbol@
            },
            Err(NormalizeError::MalformedTimestamp) => wall_clock_spec(t.timestamp@) is None,
            Err(NormalizeError::MalformedNumeric) => {
                &&& wall_clock_spec(t.timestamp@) is Some
                &&& decimal_of_text(t.last@) is None
            },
        },
{
    let timestamp = match wall_clock(t.timestamp.as_str()) {
        Some(s) => s,
        None => { return Err(NormalizeError::MalformedTimestamp); },
    };
    match parse_decimal(t.last.as_str()) {
        Some(last) => Ok(Ticker { timestamp, symbol: t.symbol.clone(), last }),
        None => Err(NormalizeError::MalformedNumeric),
    }
}

} // verus!
