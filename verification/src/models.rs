//! Rows of the analytical store, one type per table.

use crate::decimal::Decimal;
use vstd::prelude::*;

verus! {

/// A row of the execution table: a venue execution with its numbers parsed and
/// its timestamp as wall-clock text.
#[derive(Debug, Clone, PartialEq)]
pub struct MyExecutions {
    pub execution_id: i64,
    pub order_id: i64,
    pub symbol: String,
    pub side: String,
    pub settle_type: String,
    pub size: Decimal,
    pub price: Decimal,
    pub loss_gain: Decimal,
    pub fee: Decimal,
    pub timestamp: String,
}

/// A row of the balance table: one asset's balance at one moment.
#[derive(Debug, Clone, PartialEq)]
pub struct Assets {
    pub timestamp: String,
    pub symbol: String,
    pub amount: Decimal,
    pub available: Decimal,
}

/// A row of the position table: the running position after one execution.
#[derive(Debug, Clone, PartialEq)]
pub struct Positions {
    pub timestamp: String,
    pub execution_id: i64,
    pub average_price: Decimal,
    pub size: Decimal,
}

/// A row of the ticker table: the last traded price of a symbol.
#[derive(Debug, Clone, PartialEq)]
pub struct Ticker {
    pub timestamp: String,
    pub symbol: String,
    pub last: Decimal,
}

/// What a row of the execution table holds, as mathematical values.
pub struct ExecutionRow {
    pub execution_id: int,
    pub order_id: int,
    pub symbol: Seq<char>,
    pub side: Seq<char>,
    pub settle_type: Seq<char>,
    pub size: int,
    pub price: int,
    pub loss_gain: int,
    pub fee: int,
    pub timestamp: Seq<char>,
}

/// What a row of the balance table holds, as mathematical values.
pub struct BalanceRow {
    pub timestamp: Seq<char>,
    pub symbol: Seq<char>,
    pub amount: int,
    pub available: int,
}

/// What a row of the position table holds, as mathematical values.
pub struct Checkpoint {
    pub timestamp: Seq<char>,
    pub execution_id: int,
    pub average_price: int,
    pub size: int,
}

impl View for MyExecutions {
    type V = ExecutionRow;

    open spec fn view(&self) -> ExecutionRow {
        ExecutionRow {
            execution_id: self.execution_id as int,
            order_id: self.order_id as int,
            symbol: self.symbol@,
            side: self.side@,
            settle_type: self.settle_type@,
            size: self.size@,
            price: self.price@,
            loss_gain: self.loss_gain@,
            fee: self.fee@,
            timestamp: self.timestamp@,
        }
    }
}

impl View for Assets {
    type V = BalanceRow;

    open spec fn view(&self) -> BalanceRow {
        BalanceRow {
            timestamp: self.timestamp@,
            symbol: self.symbol@,
            amount: self.amount@,
            available: self.available@,
        }
    }
}

impl View for Positions {
    type V = Checkpoint;

    open spec fn view(&self) -> Checkpoint {
        Checkpoint {
            timestamp: self.timestamp@,
            execution_id: self.execution_id as int,
            average_price: self.average_price@,
            size: self.size@,
        }
    }
}

/// The rows of a batch, each as mathematical values.
pub open spec fn execution_rows(rows: Seq<MyExecutions>) -> Seq<ExecutionRow> {
    Seq::new(rows.len(), |i: int| rows[i]@)
}

/// The checkpoints of a batch, each as mathematical values.
pub open spec fn checkpoints(rows: Seq<Positions>) -> Seq<Checkpoint> {
    Seq::new(rows.len(), |i: int| rows[i]@)
}

/// The balance rows of a batch, each as mathematical values.
pub open spec fn balance_rows(rows: Seq<Assets>) -> Seq<BalanceRow> {
    Seq::new(rows.len(), |i: int| rows[i]@)
}

} // verus!
