//! The running position and its weighted-average cost.
//!
//! Two registers are folded over executions: the position size and the
//! average price paid for it. A buy moves the average towards the lot's price
//! in proportion to its size; a sell leaves the average alone. `fold` takes
//! the executions in the order given, `fold_by_time` in the order of their
//! timestamps.

use crate::decimal::{
    add_fit, display_rounded, div_round, div_round_spec, fits, magnitude, mul_fit,
    round_to_display, sub_fit, Decimal,
};
use crate::models::{
    checkpoints, execution_rows, Checkpoint, ExecutionRow, MyExecutions, Positions,
};
use crate::time_order::{sort_by_time, time_sorted};
use vstd::prelude::*;

verus! {

/// The two registers carried from one execution to the next.
#[derive(Clone, Copy, Debug, PartialEq, Eq, Structural)]
pub struct PositionState {
    pub cum_size: Decimal,
    pub avg_price: Decimal,
}

/// The registers as mathematical integers, in units of `10^-12`.
pub struct Registers {
    pub cum_size: int,
    pub avg_price: int,
}

impl View for PositionState {
    type V = Registers;

    open spec fn view(&self) -> Registers {
        Registers { cum_size: self.cum_size@, avg_price: self.avg_price@ }
    }
}

/// Why a fold stopped.
#[derive(Clone, Copy, Debug, PartialEq, Eq, Structural)]
pub enum FoldError {
    /// The execution at `index` leads to a quantity out of range.
    Overflow { index: usize },
}

/// Whether a side is a buy; every other side is taken as a sell.
pub open spec fn is_buy(side: Seq<char>) -> bool {
    side == "BUY"@
}

/// The registers after a buy of `size` at `price`.
pub open spec fn buy_spec(s: Registers, size: int, price: int) -> Registers {
    Registers {
        cum_size: s.cum_size + size,
        avg_price: if size + s.cum_size == 0 {
            s.avg_price
        } else {
            div_round_spec(price * size + s.avg_price * s.cum_size, size + s.cum_size)
        },
    }
}

/// The registers after a sell of `size`.
pub open spec fn sell_spec(s: Registers, size: int) -> Registers {
    Registers { cum_size: s.cum_size - size, avg_price: s.avg_price }
}

/// Whether every quantity that a buy computes is in range.
pub open spec fn buy_fits(s: Registers, size: int, price: int) -> bool {
    &&& fits(size + s.cum_size)
    &&& size + s.cum_size != 0 ==> {
        &&& fits(price * size)
        &&& fits(s.avg_price * s.cum_size)
        &&& fits(price * size + s.avg_price * s.cum_size)
    }
}

/// The registers after one execution.
pub open spec fn step_spec(s: Registers, row: ExecutionRow) -> Registers {
    if is_buy(row.side) {
        buy_spec(s, row.size, row.price)
    } else {
        sell_spec(s, row.size)
    }
}

/// Whether every quantity that one execution leads to is in range.
pub open spec fn step_fits(s: Registers, row: ExecutionRow) -> bool {
    if is_buy(row.side) {
        buy_fits(s, row.size, row.price)
    } else {
        fits(s.cum_size - row.size)
    }
}

/// The registers after all of `rows`, first to last.
pub open spec fn state_after(seed: Registers, rows: Seq<ExecutionRow>) -> Registers
    decreases rows.len(),
{
    if rows.len() == 0 {
        seed
    } else {
        step_spec(state_after(seed, rows.drop_last()), rows.last())
    }
}

/// Whether the fold of `rows` stays in range at every execution, the rounded
/// size of each checkpoint included.
pub open spec fn fits_through(seed: Registers, rows: Seq<ExecutionRow>) -> bool
    decreases rows.len(),
{
    rows.len() == 0 || {
        &&& fits_through(seed, rows.drop_last())
        &&& step_fits(state_after(seed, rows.drop_last()), rows.last())
        &&& fits(display_rounded(state_after(seed, rows).cum_size))
    }
}

/// The checkpoint written after an execution that led to the registers `s`.
pub open spec fn checkpoint_spec(row: ExecutionRow, s: Registers) -> Checkpoint {
    Checkpoint {
        timestamp: row.timestamp,
        execution_id: row.execution_id,
        average_price: s.avg_price,
        size: display_rounded(s.cum_size),
    }
}

/// The checkpoints of a whole fold: one per execution, in order.
pub open spec fn fold_spec(seed: Registers, rows: Seq<ExecutionRow>) -> Seq<Checkpoint> {
    Seq::new(rows.len(), |i: int| checkpoint_spec(rows[i], state_after(seed, rows.take(i + 1))))
}

fn is_buy_side(side: &String) -> (r: bool)
    ensures
        r == is_buy(side@),
{
    let buy = "BUY".to_owned();
    *side == buy
}

/// One transition of the registers. `None` where a quantity leaves the range.
pub fn step(state: PositionState, row: &MyExecutions) -> (r: Option<PositionState>)
    ensures
        r == (if step_fits(state@, row@) {
            Some(
                PositionState {
                    cum_size: Decimal { units: step_spec(state@, row@).cum_size as i128 },
                    avg_price: Decimal { units: step_spec(state@, row@).avg_price as i128 },
                },
            )
        } else {
            None
        }),
        r is Some ==> r.unwrap()@ == step_spec(state@, row@) && fits(r.unwrap().cum_size@),
{
    let cum: i128 = state.cum_size.units;
    let avg: i128 = state.avg_price.units;
    let size: i128 = row.size.units;
    let price: i128 = row.price.units;
    if is_buy_side(&row.side) {
        let den: i128 = match add_fit(size, cum) {
            Some(d) => d,
            None => { return None; },
        };
        if den == 0 {
            return Some(
                PositionState { cum_size: Decimal { units: den }, avg_price: state.avg_price },
            );
        }
        let lot: i128 = match mul_fit(price, size) {
            Some(v) => v,
            None => { return None; },
        };
        let held: i128 = match mul_fit(avg, cum) {
            Some(v) => v,
            None => { return None; },
        };
        let num: i128 = match add_fit(lot, held) {
            Some(v) => v,
            None => { return None; },
        };
        let new_avg: i128 = div_round(num, den);
        Some(
            PositionState {
                cum_size: Decimal { units: den },
                avg_price: Decimal { units: new_avg },
            },
        )
    } else {
        match sub_fit(cum, size) {
            Some(c) => Some(
                PositionState { cum_size: Decimal { units: c }, avg_price: state.avg_price },
            ),
            None => None,
        }
    }
}

/// A fold that fits as a whole fits on each of its beginnings.
pub proof fn lemma_fits_through_prefix(seed: Registers, rows: Seq<ExecutionRow>, k: int)
    requires
        0 <= k <= rows.len(),
        fits_through(seed, rows),
    ensures
        fits_through(seed, rows.take(k)),
    decreases rows.len(),
{
    if k == rows.len() {
        assert(rows.take(k) =~= rows);
    } else {
        lemma_fits_through_prefix(seed, rows.drop_last(), k);
        assert(rows.drop_last().take(k) =~= rows.take(k));
    }
}

/// Folds the executions, in the order given, into one checkpoint each.
///
/// The registers start at `seed`. Each checkpoint carries its execution's
/// timestamp and id, the average price after it, and the position size after
/// it on the display grid. The fold stops at the first execution that leads out
/// of range.
pub fn fold(seed: PositionState, rows: &Vec<MyExecutions>) -> (r: Result<Vec<Positions>, FoldError>)
    ensures
        r is Ok <==> fits_through(seed@, execution_rows(rows@)),
        r is Ok ==> checkpoints(r.unwrap()@) == fold_spec(seed@, execution_rows(rows@)),
        r matches Err(FoldError::Overflow { index }) ==> {
            &&& index < rows@.len()
            &&& fits_through(seed@, execution_rows(rows@).take(index as int))
            &&& !fits_through(seed@, execution_rows(rows@).take(index + 1))
        },
{
    let ghost all = execution_rows(rows@);
    let mut out: Vec<Positions> = Vec::new();
    let mut state = seed;
    let n: usize = rows.len();
    let mut i: usize = 0;
    while i < n
        invariant
            n == rows@.len(),
            all == execution_rows(rows@),
            0 <= i <= n,
            out@.len() == i,
            state@ == state_after(seed@, all.take(i as int)),
            fits_through(seed@, all.take(i as int)),
            forall|j: int|
                0 <= j < i ==> (#[trigger] out@[j])@ == checkpoint_spec(
                    all[j],
                    state_after(seed@, all.take(j + 1)),
                ),
        decreases n - i,
    {
        let row = &rows[i];
        proof {
            assert(all.take(i + 1).drop_last() =~= all.take(i as int));
            assert(all.take(i + 1).last() == row@);
        }
        let next = match step(state, row) {
            Some(s) => s,
            None => {
                proof {
                    if fits_through(seed@, all) {
                        lemma_fits_through_prefix(seed@, all, i + 1);
                    }
                }
                return Err(FoldError::Overflow { index: i });
            },
        };
        let shown = match round_to_display(next.cum_size) {
            Some(d) => d,
            None => {
                proof {
                    if fits_through(seed@, all) {
                        lemma_fits_through_prefix(seed@, all, i + 1);
                    }
                }
                return Err(FoldError::Overflow { index: i });
            },
        };
        out.push(
            Positions {
                timestamp: row.timestamp.clone(),
                execution_id: row.execution_id,
                average_price: next.avg_price,
                size: shown,
            },
        );
        state = next;
        i = i + 1;
    }
    proof {
        assert(all.take(n as int) =~= all);
        assert(checkpoints(out@) =~= fold_spec(seed@, all));
    }
    Ok(out)
}

/// Folds the executions in the order of their timestamps, whatever the order
/// in which they are given; executions with the same timestamp are folded in
/// the order given. The outcome is that of `fold` on the executions so
/// ordered, and an index in it counts in that order.
pub fn fold_by_time(seed: PositionState, rows: Vec<MyExecutions>) -> (r: Result<
    Vec<Positions>,
    FoldError,
>)
    ensures
        r is Ok <==> fits_through(seed@, time_sorted(execution_rows(rows@))),
        r is Ok ==> checkpoints(r.unwrap()@) == fold_spec(
            seed@,
            time_sorted(execution_rows(rows@)),
        ),
        r matches Err(FoldError::Overflow { index }) ==> {
            &&& index < rows@.len()
            &&& fits_through(seed@, time_sorted(execution_rows(rows@)).take(index as int))
            &&& !fits_through(seed@, time_sorted(execution_rows(rows@)).take(index + 1))
        },
{
    let sorted = sort_by_time(rows);
    proof {
        crate::time_order::lemma_time_sorted(execution_rows(rows@));
        assert(execution_rows(sorted@).len() == sorted@.len());
        assert(execution_rows(rows@).len() == rows@.len());
    }
    fold(seed, &sorted)
}

/// A fold has one outcome: two batches of checkpoints that both come from
/// folding the same executions from the same seed hold the same values, row by
/// row.
pub proof fn lemma_fold_deterministic(
    seed: Registers,
    rows: Seq<ExecutionRow>,
    first: Seq<Positions>,
    second: Seq<Positions>,
)
    requires
        checkpoints(first) == fold_spec(seed, rows),
        checkpoints(second) == fold_spec(seed, rows),
    ensures
        first.len() == second.len(),
        forall|i: int| 0 <= i < first.len() ==> (#[trigger] first[i])@ == second[i]@,
{
    assert(checkpoints(first).len() == first.len());
    assert(checkpoints(second).len() == second.len());
    assert forall|i: int| 0 <= i < first.len() implies (#[trigger] first[i])@ == second[i]@ by {
        assert(checkpoints(first)[i] == first[i]@);
        assert(checkpoints(second)[i] == second[i]@);
    }
}

/// The first buy into an empty position: the position is the lot, and the
/// average price is the lot's price, exactly.
pub proof fn lemma_first_buy(size: int, price: int)
    requires
        size != 0,
    ensures
        buy_spec(Registers { cum_size: 0, avg_price: 0 }, size, price) == (Registers {
            cum_size: size,
            avg_price: price,
        }),
{
    let m = magnitude(price);
    let d = magnitude(size);
    assert(magnitude(price * size) == m * d) by (nonlinear_arith)
        requires
            m == magnitude(price),
            d == magnitude(size),
    ;
    vstd::arithmetic::div_mod::lemma_div_multiples_vanish(m, d);
    vstd::arithmetic::div_mod::lemma_mod_multiples_basic(m, d);
    assert(m * d == d * m) by (nonlinear_arith);
    assert(price != 0 ==> ((price * size < 0) != (size < 0)) == (price < 0)) by (nonlinear_arith)
        requires
            size != 0,
    ;
    assert(price == 0 ==> price * size == 0) by (nonlinear_arith);
    assert(0 * 0 == 0);
}

/// A sell takes its size off the position and leaves the average price as it
/// was.
pub proof fn lemma_sell_keeps_average(s: Registers, size: int)
    ensures
        sell_spec(s, size).avg_price == s.avg_price,
        sell_spec(s, size).cum_size == s.cum_size - size,
{
}

/// The order of a buy and a sell matters. Buying `bought` at `price` and then
/// selling `sold` gives the exact average `(price * bought + avg * cum) /
/// (bought + cum)`; selling first gives `(price * bought + avg * (cum - sold))
/// / (bought + cum - sold)`. Before rounding the two fractions are equal only
/// where nothing was sold or bought, or the lot's price is the average held.
pub proof fn lemma_order_matters(cum: int, avg: int, bought: int, price: int, sold: int)
    requires
        bought + cum != 0,
        bought + cum - sold != 0,
    ensures
        ((price * bought + avg * cum) * (bought + cum - sold) == (price * bought + avg * (cum
            - sold)) * (bought + cum)) <==> (sold == 0 || bought == 0 || price == avg),
{
    let n = price * bought + avg * cum;
    let d = bought + cum;
    let lhs = n * (d - sold);
    let rhs = (price * bought + avg * (cum - sold)) * d;
    assert(avg * (cum - sold) == avg * cum - avg * sold) by (nonlinear_arith);
    assert(lhs == n * d - n * sold) by (nonlinear_arith)
        requires
            lhs == n * (d - sold),
    ;
    assert(rhs == n * d - (avg * sold) * d) by (nonlinear_arith)
        requires
            rhs == (n - avg * sold) * d,
    ;
    assert(n * sold == (price * bought) * sold + (avg * cum) * sold) by (nonlinear_arith)
        requires
            n == price * bought + avg * cum,
    ;
    assert((avg * sold) * d == (avg * sold) * bought + (avg * sold) * cum) by (nonlinear_arith)
        requires
            d == bought + cum,
    ;
    assert((avg * cum) * sold == (avg * sold) * cum) by (nonlinear_arith);
    assert((avg * sold) * bought - (price * bought) * sold == sold * (bought * (avg - price)))
        by (nonlinear_arith);
    assert(lhs - rhs == sold * (bought * (avg - price)));
    assert((sold * (bought * (avg - price)) == 0) <==> (sold == 0 || bought == 0 || avg - price
        == 0)) by (nonlinear_arith);
}

} // verus!
