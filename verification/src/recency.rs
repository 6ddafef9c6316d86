//! Rows kept in the order of a time that each carries: where a new row goes,
//! and what reading the newest rows gives.
use vstd::prelude::*;

use crate::time::Timestamp;

verus! {

/// Rows in the order of time: none stands before one of an earlier time.
pub open spec fn in_order<A>(rows: Seq<A>, time: spec_fn(A) -> Timestamp) -> bool {
    forall|i: int, j: int|
        0 <= i < j < rows.len() ==> time(#[trigger] rows[i]).le_spec(time(#[trigger] rows[j]))
}

/// Where a row of time `t` goes: behind every row that is not later.
pub open spec fn place_for<A>(rows: Seq<A>, time: spec_fn(A) -> Timestamp, t: Timestamp) -> int
    decreases rows.len(),
{
    if rows.len() == 0 {
        0
    } else if time(rows.last()).le_spec(t) {
        rows.len() as int
    } else {
        place_for(rows.drop_last(), time, t)
    }
}

/// The rows with one more, put at the place for its time.
pub open spec fn placed<A>(rows: Seq<A>, time: spec_fn(A) -> Timestamp, row: A) -> Seq<A> {
    rows.insert(place_for(rows, time, time(row)), row)
}

/// The last `n` of a run, last first; all of them where there are fewer.
pub open spec fn newest_first<A>(s: Seq<A>, n: int) -> Seq<A> {
    Seq::new(
        if n < s.len() {
            if n < 0 {
                0nat
            } else {
                n as nat
            }
        } else {
            s.len()
        },
        |i: int| s[s.len() - 1 - i],
    )
}

/// The place for a new row lies within the rows or at their end.
pub proof fn lemma_place_in_bounds<A>(rows: Seq<A>, time: spec_fn(A) -> Timestamp, t: Timestamp)
    ensures
        0 <= place_for(rows, time, t) <= rows.len(),
    decreases rows.len(),
{
    if rows.len() > 0 && !time(rows.last()).le_spec(t) {
        lemma_place_in_bounds(rows.drop_last(), time, t);
    }
}

/// The place for a new row splits the rows: those before it are not later
/// than the new one, those from it on are.
pub proof fn lemma_place_splits<A>(rows: Seq<A>, time: spec_fn(A) -> Timestamp, t: Timestamp)
    requires
        in_order(rows, time),
    ensures
        0 <= place_for(rows, time, t) <= rows.len(),
        forall|k: int| 0 <= k < place_for(rows, time, t) ==> time(#[trigger] rows[k]).le_spec(t),
        forall|k: int|
            place_for(rows, time, t) <= k < rows.len() ==> !time(#[trigger] rows[k]).le_spec(t),
    decreases rows.len(),
{
    if rows.len() == 0 {
    } else if time(rows.last()).le_spec(t) {
        assert forall|k: int| 0 <= k < rows.len() implies time(#[trigger] rows[k]).le_spec(t) by {
            if k < rows.len() - 1 {
                assert(time(rows[k]).le_spec(time(rows[rows.len() - 1])));
            }
        }
    } else {
        let front = rows.drop_last();
        assert forall|i: int, j: int| 0 <= i < j < front.len() implies time(
            #[trigger] front[i],
        ).le_spec(time(#[trigger] front[j])) by {
            assert(front[i] == rows[i]);
            assert(front[j] == rows[j]);
        }
        lemma_place_splits(front, time, t);
        assert forall|k: int| 0 <= k < place_for(rows, time, t) implies time(
            #[trigger] rows[k],
        ).le_spec(t) by {
            assert(front[k] == rows[k]);
        }
        assert forall|k: int| place_for(rows, time, t) <= k < rows.len() implies !time(
            #[trigger] rows[k],
        ).le_spec(t) by {
            if k < front.len() {
                assert(front[k] == rows[k]);
            }
        }
    }
}

/// Putting a row at the place for its time keeps the rows in the order of
/// time.
pub proof fn lemma_placed_in_order<A>(rows: Seq<A>, time: spec_fn(A) -> Timestamp, row: A)
    requires
        in_order(rows, time),
    ensures
        in_order(placed(rows, time, row), time),
{
    let p = place_for(rows, time, time(row));
    lemma_place_splits(rows, time, time(row));
    let after = placed(rows, time, row);
    assert forall|i: int, j: int| 0 <= i < j < after.len() implies time(
        #[trigger] after[i],
    ).le_spec(time(#[trigger] after[j])) by {
        if j < p {
            assert(after[i] == rows[i]);
            assert(after[j] == rows[j]);
        } else if j == p {
            assert(after[i] == rows[i]);
        } else if i < p {
            assert(after[i] == rows[i]);
            assert(after[j] == rows[j - 1]);
        } else if i == p {
            assert(after[j] == rows[j - 1]);
            assert(!time(rows[j - 1]).le_spec(time(row)));
        } else {
            assert(after[i] == rows[i - 1]);
            assert(after[j] == rows[j - 1]);
        }
    }
}

/// Of rows in the order of time, the newest ones come newest first: none is
/// later than the one before it, and no row left out is later than one of
/// them.
pub proof fn lemma_newest_first<A>(rows: Seq<A>, time: spec_fn(A) -> Timestamp, n: int)
    requires
        in_order(rows, time),
    ensures
        forall|i: int, j: int|
            0 <= i < j < newest_first(rows, n).len() ==> time(
                #[trigger] newest_first(rows, n)[j],
            ).le_spec(time(#[trigger] newest_first(rows, n)[i])),
        forall|k: int, i: int|
            0 <= k < rows.len() - newest_first(rows, n).len() && 0 <= i < newest_first(
                rows,
                n,
            ).len() ==> time(#[trigger] rows[k]).le_spec(time(#[trigger] newest_first(rows, n)[i])),
{
    let got = newest_first(rows, n);
    assert forall|i: int, j: int| 0 <= i < j < got.len() implies time(#[trigger] got[j]).le_spec(
        time(#[trigger] got[i]),
    ) by {
        assert(got[j] == rows[rows.len() - 1 - j]);
        assert(got[i] == rows[rows.len() - 1 - i]);
    }
    assert forall|k: int, i: int|
        0 <= k < rows.len() - got.len() && 0 <= i < got.len() implies time(
        #[trigger] rows[k],
    ).le_spec(time(#[trigger] got[i])) by {
        assert(got[i] == rows[rows.len() - 1 - i]);
    }
}

} // verus!
