//! The order of time: rows by their wall-clock timestamps.
//!
//! Wall-clock text of one layout orders as its instants do when it is compared
//! character by character. Rows with the same timestamp keep the order in
//! which they came.

use crate::models::{execution_rows, ExecutionRow, MyExecutions};
use vstd::multiset::Multiset;
use vstd::prelude::*;
use vstd::string::StrSliceExecFns;

verus! {

/// Whether `a` comes no later than `b`, character by character; a text comes
/// before every text that it begins.
pub open spec fn text_le(a: Seq<char>, b: Seq<char>) -> bool
    decreases a.len(),
{
    if a.len() == 0 {
        true
    } else if b.len() == 0 {
        false
    } else if a[0] != b[0] {
        a[0] < b[0]
    } else {
        text_le(a.skip(1), b.skip(1))
    }
}

/// Whether no row comes before a row with an earlier timestamp.
pub open spec fn time_ordered(rows: Seq<ExecutionRow>) -> bool {
    forall|i: int, j: int|
        0 <= i < j < rows.len() ==> text_le(
            (#[trigger] rows[i]).timestamp,
            (#[trigger] rows[j]).timestamp,
        )
}

/// Where a row with the timestamp `stamp` goes among ordered rows: behind the
/// last row that comes no later.
pub open spec fn slot(sorted: Seq<ExecutionRow>, stamp: Seq<char>) -> int
    decreases sorted.len(),
{
    if sorted.len() == 0 {
        0
    } else if text_le(sorted.last().timestamp, stamp) {
        sorted.len() as int
    } else {
        slot(sorted.drop_last(), stamp)
    }
}

/// The rows in the order of their timestamps, rows with the same timestamp in
/// the order in which they came.
pub open spec fn time_sorted(rows: Seq<ExecutionRow>) -> Seq<ExecutionRow>
    decreases rows.len(),
{
    if rows.len() == 0 {
        Seq::empty()
    } else {
        let sorted = time_sorted(rows.drop_last());
        sorted.insert(slot(sorted, rows.last().timestamp), rows.last())
    }
}

/// Of two texts one comes no later than the other.
pub proof fn lemma_text_le_total(a: Seq<char>, b: Seq<char>)
    ensures
        text_le(a, b) || text_le(b, a),
    decreases a.len(),
{
    if a.len() > 0 && b.len() > 0 && a[0] == b[0] {
        lemma_text_le_total(a.skip(1), b.skip(1));
    }
}

/// What comes no later than a text comes no later than any text after it.
pub proof fn lemma_text_le_transitive(a: Seq<char>, b: Seq<char>, c: Seq<char>)
    requires
        text_le(a, b),
        text_le(b, c),
    ensures
        text_le(a, c),
    decreases a.len(),
{
    if a.len() > 0 && b.len() > 0 && c.len() > 0 && a[0] == b[0] && b[0] == c[0] {
        lemma_text_le_transitive(a.skip(1), b.skip(1), c.skip(1));
    }
}

/// The slot lies behind every row that comes no later and before every row
/// that comes later.
pub proof fn lemma_slot(sorted: Seq<ExecutionRow>, stamp: Seq<char>)
    requires
        time_ordered(sorted),
    ensures
        0 <= slot(sorted, stamp) <= sorted.len(),
        forall|j: int|
            0 <= j < slot(sorted, stamp) ==> text_le((#[trigger] sorted[j]).timestamp, stamp),
        forall|j: int|
            slot(sorted, stamp) <= j < sorted.len() ==> text_le(
                stamp,
                (#[trigger] sorted[j]).timestamp,
            ) && !text_le(sorted[j].timestamp, stamp),
    decreases sorted.len(),
{
    if sorted.len() > 0 {
        let last = sorted.last();
        if text_le(last.timestamp, stamp) {
            assert forall|j: int| 0 <= j < sorted.len() implies text_le(
                (#[trigger] sorted[j]).timestamp,
                stamp,
            ) by {
                if j < sorted.len() - 1 {
                    assert(text_le(sorted[j].timestamp, sorted[sorted.len() - 1].timestamp));
                    lemma_text_le_transitive(sorted[j].timestamp, last.timestamp, stamp);
                }
            }
        } else {
            let front = sorted.drop_last();
            assert(time_ordered(front)) by {
                assert forall|i: int, j: int| 0 <= i < j < front.len() implies text_le(
                    (#[trigger] front[i]).timestamp,
                    (#[trigger] front[j]).timestamp,
                ) by {
                    assert(front[i] == sorted[i] && front[j] == sorted[j]);
                }
            }
            lemma_slot(front, stamp);
            lemma_text_le_total(last.timestamp, stamp);
            assert forall|j: int| slot(sorted, stamp) <= j < sorted.len() implies text_le(
                stamp,
                (#[trigger] sorted[j]).timestamp,
            ) && !text_le(sorted[j].timestamp, stamp) by {
                if j < sorted.len() - 1 {
                    assert(sorted[j] == front[j]);
                }
            }
            assert forall|j: int| 0 <= j < slot(sorted, stamp) implies text_le(
                (#[trigger] sorted[j]).timestamp,
                stamp,
            ) by {
                assert(sorted[j] == front[j]);
            }
        }
    }
}

/// Sorting by time gives rows in the order of time, and the same rows.
pub proof fn lemma_time_sorted(rows: Seq<ExecutionRow>)
    ensures
        time_ordered(time_sorted(rows)),
        time_sorted(rows).to_multiset() == rows.to_multiset(),
        time_sorted(rows).len() == rows.len(),
    decreases rows.len(),
{
    broadcast use vstd::seq_lib::to_multiset_build, vstd::seq_lib::to_multiset_insert;

    if rows.len() == 0 {
        assert(rows =~= Seq::empty());
    } else {
        let front = rows.drop_last();
        let x = rows.last();
        let sorted = time_sorted(front);
        lemma_time_sorted(front);
        lemma_slot(sorted, x.timestamp);
        let k = slot(sorted, x.timestamp);
        let next = sorted.insert(k, x);
        assert forall|i: int, j: int| 0 <= i < j < next.len() implies text_le(
            (#[trigger] next[i]).timestamp,
            (#[trigger] next[j]).timestamp,
        ) by {
            if j < k {
                assert(next[i] == sorted[i] && next[j] == sorted[j]);
            } else if j == k {
                assert(next[i] == sorted[i]);
            } else if i == k {
                assert(next[j] == sorted[j - 1]);
            } else if i > k {
                assert(next[i] == sorted[i - 1] && next[j] == sorted[j - 1]);
            } else {
                assert(next[i] == sorted[i] && next[j] == sorted[j - 1]);
            }
        }
        assert(rows =~= front.push(x));
        assert(next.to_multiset() =~= sorted.to_multiset().insert(x));
        assert(rows.to_multiset() =~= front.to_multiset().insert(x));
    }
}

/// Rows that are in the order of time stay as they are.
pub proof fn lemma_time_sorted_keeps_ordered(rows: Seq<ExecutionRow>)
    requires
        time_ordered(rows),
    ensures
        time_sorted(rows) == rows,
    decreases rows.len(),
{
    if rows.len() > 0 {
        let front = rows.drop_last();
        assert forall|i: int, j: int| 0 <= i < j < front.len() implies text_le(
            (#[trigger] front[i]).timestamp,
            (#[trigger] front[j]).timestamp,
        ) by {
            assert(front[i] == rows[i] && front[j] == rows[j]);
        }
        lemma_time_sorted_keeps_ordered(front);
        if front.len() > 0 {
            assert(front.last() == rows[rows.len() - 2]);
            assert(text_le(rows[rows.len() - 2].timestamp, rows[rows.len() - 1].timestamp));
        }
        assert(front.insert(front.len() as int, rows.last()) =~= rows);
    } else {
        assert(time_sorted(rows) =~= rows);
    }
}

/// Two texts of which neither comes later are the same text.
pub proof fn lemma_text_le_antisymmetric(a: Seq<char>, b: Seq<char>)
    requires
        text_le(a, b),
        text_le(b, a),
    ensures
        a == b,
    decreases a.len(),
{
    if a.len() == 0 {
        assert(a =~= b);
    } else {
        lemma_text_le_antisymmetric(a.skip(1), b.skip(1));
        assert forall|i: int| 0 <= i < a.len() implies a[i] == b[i] by {
            if i > 0 {
                assert(a.skip(1)[i - 1] == a[i]);
                assert(b.skip(1)[i - 1] == b[i]);
            }
        }
        assert(a.len() == b.len()) by {
            assert(a.skip(1).len() == b.skip(1).len());
        }
        assert(a =~= b);
    }
}

/// Whether rows with the same timestamp are the same row.
pub open spec fn told_apart_by_time(rows: Multiset<ExecutionRow>) -> bool {
    forall|x: ExecutionRow, y: ExecutionRow|
        rows.contains(x) && rows.contains(y) && x.timestamp == y.timestamp ==> x == y
}

proof fn lemma_front_ordered(rows: Seq<ExecutionRow>)
    requires
        time_ordered(rows),
        rows.len() > 0,
    ensures
        time_ordered(rows.drop_last()),
{
    let front = rows.drop_last();
    assert forall|i: int, j: int| 0 <= i < j < front.len() implies text_le(
        (#[trigger] front[i]).timestamp,
        (#[trigger] front[j]).timestamp,
    ) by {
        assert(front[i] == rows[i] && front[j] == rows[j]);
    }
}

proof fn lemma_last_is_latest(rows: Seq<ExecutionRow>, x: ExecutionRow)
    requires
        time_ordered(rows),
        rows.contains(x),
    ensures
        x == rows.last() || text_le(x.timestamp, rows.last().timestamp),
{
    let j = choose|j: int| 0 <= j < rows.len() && rows[j] == x;
    if j < rows.len() - 1 {
        assert(text_le(rows[j].timestamp, rows[rows.len() - 1].timestamp));
    }
}

/// Rows in the order of time are determined by which rows they are, where
/// the rows are told apart by their timestamps.
pub proof fn lemma_ordered_unique(s: Seq<ExecutionRow>, t: Seq<ExecutionRow>)
    requires
        time_ordered(s),
        time_ordered(t),
        s.to_multiset() == t.to_multiset(),
        told_apart_by_time(s.to_multiset()),
    ensures
        s == t,
    decreases s.len(),
{
    broadcast use
        vstd::seq_lib::to_multiset_len,
        vstd::seq_lib::to_multiset_contains,
        vstd::seq_lib::to_multiset_remove,
    ;

    assert(s.len() == s.to_multiset().len());
    assert(t.len() == t.to_multiset().len());
    if s.len() == 0 {
        assert(s =~= t);
    } else {
        let x = s.last();
        let y = t.last();
        assert(s.contains(x)) by {
            assert(s[s.len() - 1] == x);
        }
        assert(t.contains(y)) by {
            assert(t[t.len() - 1] == y);
        }
        assert(s.to_multiset().contains(x));
        assert(t.to_multiset().contains(y));
        assert(t.contains(x));
        assert(s.contains(y));
        lemma_last_is_latest(t, x);
        lemma_last_is_latest(s, y);
        if x != y {
            lemma_text_le_antisymmetric(x.timestamp, y.timestamp);
        }
        assert(x == y);
        let sf = s.drop_last();
        let tf = t.drop_last();
        assert(s.remove(s.len() - 1) =~= sf);
        assert(t.remove(t.len() - 1) =~= tf);
        assert(sf.to_multiset() =~= s.to_multiset().remove(x));
        assert(tf.to_multiset() =~= t.to_multiset().remove(y));
        lemma_front_ordered(s);
        lemma_front_ordered(t);
        assert(told_apart_by_time(sf.to_multiset())) by {
            assert forall|a: ExecutionRow, b: ExecutionRow|
                sf.to_multiset().contains(a) && sf.to_multiset().contains(b) && a.timestamp
                    == b.timestamp implies a == b by {
                assert(s.to_multiset().contains(a));
                assert(s.to_multiset().contains(b));
            }
        }
        lemma_ordered_unique(sf, tf);
        assert(s =~= sf.push(x));
        assert(t =~= tf.push(y));
    }
}

/// The order in which rows arrive does not matter to their order in time:
/// the same rows, told apart by their timestamps, sort to the same sequence
/// however they are given.
pub proof fn lemma_arrival_is_immaterial(first: Seq<ExecutionRow>, second: Seq<ExecutionRow>)
    requires
        first.to_multiset() == second.to_multiset(),
        told_apart_by_time(first.to_multiset()),
    ensures
        time_sorted(first) == time_sorted(second),
{
    lemma_time_sorted(first);
    lemma_time_sorted(second);
    lemma_ordered_unique(time_sorted(first), time_sorted(second));
}

/// Whether `a` comes no later than `b`.
pub fn comes_no_later(a: &str, b: &str) -> (r: bool)
    ensures
        r == text_le(a@, b@),
{
    let la: usize = a.unicode_len();
    let lb: usize = b.unicode_len();
    let mut i: usize = 0;
    proof {
        assert(a@.skip(0) =~= a@);
        assert(b@.skip(0) =~= b@);
    }
    while i < la && i < lb
        invariant
            la == a@.len(),
            lb == b@.len(),
            0 <= i <= la,
            i <= lb,
            text_le(a@, b@) == text_le(a@.skip(i as int), b@.skip(i as int)),
        decreases la - i,
    {
        let ca: char = a.get_char(i);
        let cb: char = b.get_char(i);
        proof {
            assert(a@.skip(i as int)[0] == ca);
            assert(b@.skip(i as int)[0] == cb);
            assert(a@.skip(i as int).skip(1) =~= a@.skip(i + 1));
            assert(b@.skip(i as int).skip(1) =~= b@.skip(i + 1));
        }
        if ca != cb {
            return ca < cb;
        }
        i = i + 1;
    }
    i == la
}

fn find_slot(sorted: &Vec<MyExecutions>, stamp: &str) -> (k: usize)
    ensures
        k == slot(execution_rows(sorted@), stamp@),
        k <= sorted@.len(),
{
    let ghost all = execution_rows(sorted@);
    let mut k: usize = sorted.len();
    let mut found: bool = false;
    assert(all.take(k as int) =~= all);
    while !found
        invariant
            all == execution_rows(sorted@),
            0 <= k <= sorted@.len(),
            slot(all, stamp@) == slot(all.take(k as int), stamp@),
            found ==> slot(all.take(k as int), stamp@) == k,
        decreases k + if found { 0int } else { 1int },
    {
        if k == 0 {
            found = true;
        } else if comes_no_later(sorted[k - 1].timestamp.as_str(), stamp) {
            assert(all.take(k as int).last() == sorted@[k - 1]@);
            found = true;
        } else {
            assert(all.take(k as int).last() == sorted@[k - 1]@);
            assert(all.take(k as int).drop_last() =~= all.take(k - 1));
            k = k - 1;
        }
    }
    k
}

/// Sorts rows by their timestamps; rows with the same timestamp keep their
/// order.
pub fn sort_by_time(rows: Vec<MyExecutions>) -> (sorted: Vec<MyExecutions>)
    ensures
        execution_rows(sorted@) == time_sorted(execution_rows(rows@)),
{
    let ghost all = execution_rows(rows@);
    let mut input = rows;
    let mut out: Vec<MyExecutions> = Vec::new();
    let ghost mut done: int = 0;
    proof {
        assert(execution_rows(out@) =~= time_sorted(all.take(0)));
        assert(all.skip(0) =~= all);
    }
    while input.len() > 0
        invariant
            0 <= done <= all.len(),
            execution_rows(input@) == all.skip(done),
            execution_rows(out@) == time_sorted(all.take(done)),
        decreases input@.len(),
    {
        let ghost before_in = input@;
        let ghost before_out = execution_rows(out@);
        assert(execution_rows(input@).len() == input@.len());
        let x = input.remove(0);
        let k = find_slot(&out, x.timestamp.as_str());
        proof {
            assert(execution_rows(before_in)[0] == x@);
            assert(all.skip(done)[0] == all[done]);
            assert(all.take(done + 1).drop_last() =~= all.take(done));
            assert(all.take(done + 1).last() == x@);
            assert(input@ == before_in.remove(0));
            assert forall|i: int| 0 <= i < input@.len() implies execution_rows(input@)[i]
                == all.skip(done + 1)[i] by {
                assert(input@[i] == before_in[i + 1]);
                assert(execution_rows(before_in)[i + 1] == before_in[i + 1]@);
                assert(all.skip(done)[i + 1] == all[done + 1 + i]);
            }
            assert(execution_rows(input@) =~= all.skip(done + 1));
        }
        out.insert(k, x);
        proof {
            assert(execution_rows(out@) =~= before_out.insert(k as int, x@));
            done = done + 1;
        }
    }
    proof {
        assert(execution_rows(input@).len() == 0);
        assert(all.take(done) =~= all);
    }
    out
}

} // verus!
