//! What the venue answers, as plain values.

use vstd::prelude::*;

verus! {

/// The answer to a status request.
#[derive(Debug, Clone, PartialEq)]
pub struct StatusResponse {
    pub status: u8,
    pub data: Option<StatusData>,
    pub responsetime: Option<String>,
}

/// The data of a status answer.
#[derive(Debug, Clone, PartialEq)]
pub struct StatusData {
    pub status: Status,
}

/// The state of the venue's service.
#[allow(non_camel_case_types)]
#[derive(Debug, Clone, Copy, PartialEq, Eq, Structural)]
pub enum Status {
    MAINTENANCE,
    REOPEN,
    OPEN,
}

/// One error message of the venue.
#[derive(Debug, Clone, PartialEq)]
pub struct ErrorMessage {
    pub message_code: String,
    pub message_string: String,
}

/// The answer to a balance request.
#[derive(Debug, Clone, PartialEq)]
pub struct AssetesResponse {
    pub status: u8,
    pub responsetime: String,
    pub data: Option<Vec<Asset>>,
    pub messages: Option<Vec<ErrorMessage>>,
}

/// The balance of one asset, its numbers as decimal text.
#[derive(Debug, Clone, PartialEq)]
pub struct Asset {
    pub amount: String,
    pub available: String,
    pub conversion_rate: String,
    pub symbol: String,
}

/// The answer to a request for the executions of an order.
#[derive(Debug, Clone, PartialEq)]
pub struct ExecutionsResponse {
    pub status: u8,
    pub responsetime: String,
    pub data: Option<ExecutionData>,
    pub messages: Option<Vec<ErrorMessage>>,
}

/// The data of an answer that lists executions.
#[derive(Debug, Clone, PartialEq)]
pub struct ExecutionData {
    pub list: Option<Vec<Execution>>,
}

/// One execution as the venue reports it: numbers as decimal text, the
/// timestamp in RFC 3339.
#[derive(Debug, Clone, PartialEq)]
pub struct Execution {
    pub execution_id: i64,
    pub order_id: i64,
    pub symbol: String,
    pub side: String,
    pub settle_type: String,
    pub size: String,
    pub price: String,
    pub loss_gain: String,
    pub fee: String,
    pub timestamp: String,
}

/// The answer to a request for the latest executions.
#[derive(Debug, Clone, PartialEq)]
pub struct LatestExecutionsResponse {
    pub status: u8,
    pub responsetime: Option<String>,
    pub pagination: Option<Pagination>,
    pub data: Option<ExecutionData>,
    pub messages: Option<Vec<ErrorMessage>>,
}

#[derive(Debug, Clone, Copy, PartialEq, Eq, Structural)]
pub struct Pagination {
    pub current_page: i64,
    pub count: i64,
}

/// The answer to a ticker request.
#[derive(Debug, Clone, PartialEq)]
pub struct TickerResponse {
    pub status: u8,
    pub data: Vec<TickerData>,
    pub responsetime: String,
}

/// The prices of one symbol, as decimal text.
#[derive(Debug, Clone, PartialEq)]
pub struct TickerData {
    pub ask: String,
    pub bid: String,
    pub high: String,
    pub low: String,
    pub last: String,
    pub symbol: String,
    pub timestamp: String,
    pub volume: String,
}

/// The executions that an answer lists: none where it carries no data or no
/// list.
pub open spec fn listed(data: Option<ExecutionData>) -> Seq<Execution> {
    match data {
        Some(d) => match d.list {
            Some(l) => l@,
            None => Seq::empty(),
        },
        None => Seq::empty(),
    }
}

} // verus!
