//! The sample cache: an append-only log of what each source returned, read
//! back newest first.
use vstd::multiset::Multiset;
use vstd::prelude::*;

use crate::recency::{
    in_order, lemma_newest_first, lemma_place_in_bounds, lemma_placed_in_order, newest_first,
    place_for, placed,
};
use crate::text::str_eq;
use crate::time::Timestamp;

verus! {

/// One cache entry: what a source returned, and when it was stored.
#[derive(Debug)]
pub struct SourceSample {
    pub source: String,
    pub fetched_at: Timestamp,
    pub payload: serde_json::Value,
}

pub struct SourceSampleView {
    pub source: Seq<char>,
    pub fetched_at: Timestamp,
    pub payload: serde_json::Value,
}

impl View for SourceSample {
    type V = SourceSampleView;

    open spec fn view(&self) -> SourceSampleView {
        SourceSampleView {
            source: self.source@,
            fetched_at: self.fetched_at,
            payload: self.payload,
        }
    }
}

impl Clone for SourceSample {
    fn clone(&self) -> (r: SourceSample)
        ensures
            r@ == self@,
    {
        SourceSample {
            source: self.source.clone(),
            fetched_at: self.fetched_at,
            payload: self.payload.clone(),
        }
    }
}

/// The views of a run of samples.
pub open spec fn views(rows: Seq<SourceSample>) -> Seq<SourceSampleView> {
    rows.map_values(|x: SourceSample| x@)
}

/// The time at which a row was stored.
pub open spec fn stored_time() -> spec_fn(SourceSampleView) -> Timestamp {
    |r: SourceSampleView| r.fetched_at
}

/// Rows in the order of time: none is stored before an earlier one.
pub open spec fn in_time_order(rows: Seq<SourceSampleView>) -> bool {
    in_order(rows, stored_time())
}

/// The test for the rows of one source.
pub open spec fn from_source(source: Seq<char>) -> spec_fn(SourceSampleView) -> bool {
    |r: SourceSampleView| r.source == source
}

/// The rows of one source, oldest first.
pub open spec fn of_source(rows: Seq<SourceSampleView>, source: Seq<char>) -> Seq<
    SourceSampleView,
> {
    rows.filter(from_source(source))
}

/// The `n` most recent rows of a source, newest first.
pub open spec fn recent_of(rows: Seq<SourceSampleView>, source: Seq<char>, n: int) -> Seq<
    SourceSampleView,
> {
    newest_first(of_source(rows, source), n)
}

/// The most recent row of a source, if it has any.
pub open spec fn latest_of(rows: Seq<SourceSampleView>, source: Seq<char>) -> Option<
    SourceSampleView,
> {
    let own = of_source(rows, source);
    if own.len() > 0 {
        Some(own.last())
    } else {
        None
    }
}

/// The log after one more sample has been written: the sample stands behind
/// every row that is not later.
pub open spec fn written(rows: Seq<SourceSampleView>, sample: SourceSampleView) -> Seq<
    SourceSampleView,
> {
    placed(rows, stored_time(), sample)
}

/// The rows of a source from a place on: the row at the place, where it is of
/// the source, before those that follow.
pub proof fn lemma_of_source_from(rows: Seq<SourceSampleView>, source: Seq<char>, p: int)
    requires
        0 <= p < rows.len(),
    ensures
        of_source(rows.skip(p), source) == if rows[p].source == source {
            seq![rows[p]] + of_source(rows.skip(p + 1), source)
        } else {
            of_source(rows.skip(p + 1), source)
        },
{
    let keep = from_source(source);
    let head = Seq::<SourceSampleView>::empty().push(rows[p]);
    let tail = rows.skip(p + 1);
    assert(rows.skip(p) =~= head + tail);
    Seq::filter_distributes_over_add(head, tail, keep);
    Seq::<SourceSampleView>::empty().lemma_filter_push(rows[p], keep);
    assert(Seq::<SourceSampleView>::empty().filter(keep) =~= Seq::empty());
    if rows[p].source == source {
        assert(head.filter(keep) =~= seq![rows[p]]);
    } else {
        assert(head.filter(keep) =~= Seq::empty());
        assert(head.filter(keep) + tail.filter(keep) =~= tail.filter(keep));
    }
}

/// The sample that one write of a source leaves: stored at `w.0`, holding
/// `w.1`.
pub open spec fn sample_of(source: Seq<char>, w: (Timestamp, serde_json::Value)) -> SourceSampleView {
    SourceSampleView { source, fetched_at: w.0, payload: w.1 }
}

/// The samples that a run of writes of one source leaves.
pub open spec fn samples_of(source: Seq<char>, writes: Seq<(Timestamp, serde_json::Value)>) -> Seq<
    SourceSampleView,
> {
    writes.map_values(|w: (Timestamp, serde_json::Value)| sample_of(source, w))
}

/// The log after a run of writes of one source, in order.
pub open spec fn after_writes(
    rows: Seq<SourceSampleView>,
    source: Seq<char>,
    writes: Seq<(Timestamp, serde_json::Value)>,
) -> Seq<SourceSampleView>
    decreases writes.len(),
{
    if writes.len() == 0 {
        rows
    } else {
        written(after_writes(rows, source, writes.drop_last()), sample_of(source, writes.last()))
    }
}

/// A write adds its sample to the rows of its own source and leaves the rows
/// of every other source as they were.
pub proof fn lemma_written_of_source(
    rows: Seq<SourceSampleView>,
    sample: SourceSampleView,
    source: Seq<char>,
)
    ensures
        sample.source == source ==> of_source(written(rows, sample), source).to_multiset()
            == of_source(rows, source).to_multiset().insert(sample),
        sample.source != source ==> of_source(written(rows, sample), source) == of_source(
            rows,
            source,
        ),
{
    broadcast use vstd::seq_lib::lemma_multiset_commutative;

    let keep = from_source(source);
    let p = place_for(rows, stored_time(), sample.fetched_at);
    lemma_place_in_bounds(rows, stored_time(), sample.fetched_at);
    let front = rows.take(p);
    let back = rows.skip(p);
    let one = Seq::<SourceSampleView>::empty().push(sample);
    assert(rows =~= front + back);
    assert(written(rows, sample) =~= (front + one) + back);
    Seq::filter_distributes_over_add(front, back, keep);
    Seq::filter_distributes_over_add(front + one, back, keep);
    Seq::filter_distributes_over_add(front, one, keep);
    Seq::<SourceSampleView>::empty().lemma_filter_push(sample, keep);
    assert(Seq::<SourceSampleView>::empty().filter(keep) =~= Seq::empty());
    if sample.source == source {
        assert(one.filter(keep) =~= one);
        let a = front.filter(keep);
        let b = back.filter(keep);
        assert(a + one =~= a.push(sample));
        vstd::seq_lib::to_multiset_build(a, sample);
        assert(((a + one) + b).to_multiset() =~= (a + b).to_multiset().insert(sample));
    } else {
        assert(one.filter(keep) =~= Seq::empty());
        assert((front.filter(keep) + one.filter(keep)) + back.filter(keep) =~= front.filter(keep)
            + back.filter(keep));
    }
}

/// The rows of one source are in the order of time where the log is.
pub proof fn lemma_of_source_in_time_order(rows: Seq<SourceSampleView>, source: Seq<char>)
    requires
        in_time_order(rows),
    ensures
        in_time_order(of_source(rows, source)),
    decreases rows.len(),
{
    let keep = from_source(source);
    if rows.len() == 0 {
        assert(rows.filter(keep).len() <= rows.len()) by {
            rows.lemma_filter_len(keep);
        }
    } else {
        let front = rows.drop_last();
        let last = rows.last();
        assert(rows =~= front.push(last));
        front.lemma_filter_push(last, keep);
        assert forall|i: int, j: int| 0 <= i < j < front.len() implies (#[trigger] front[i]).fetched_at.le_spec(
            (#[trigger] front[j]).fetched_at,
        ) by {
            assert(front[i] == rows[i]);
            assert(front[j] == rows[j]);
        }
        lemma_of_source_in_time_order(front, source);
        let own = of_source(rows, source);
        let before = of_source(front, source);
        if last.source == source {
            assert forall|i: int, j: int| 0 <= i < j < own.len() implies (#[trigger] own[i]).fetched_at.le_spec(
                (#[trigger] own[j]).fetched_at,
            ) by {
                if j < before.len() {
                    assert(own[i] == before[i]);
                    assert(own[j] == before[j]);
                } else {
                    assert(own[i] == before[i]);
                    assert(before.contains(before[i]));
                    front.lemma_filter_contains_rev(keep, before[i]);
                    let k = choose|k: int| 0 <= k < front.len() && front[k] == before[i];
                    assert(rows[k] == front[k]);
                    assert(rows[k].fetched_at.le_spec(rows[rows.len() - 1].fetched_at));
                }
            }
        }
    }
}

/// After N writes of one source, whatever their times and in whatever order
/// they came, the log gives them back exactly and newest first. Reading the
/// N most recent rows of the source returns the N samples written, each as
/// often as it was written, none stored later than the one before it. The
/// latest row is the first of them, and no write has a later time.
///
/// The log the writes start from holds no row of that source; rows of other
/// sources may be there.
pub proof fn law_recent_returns_the_writes(
    rows: Seq<SourceSampleView>,
    source: Seq<char>,
    writes: Seq<(Timestamp, serde_json::Value)>,
)
    requires
        in_time_order(rows),
        of_source(rows, source).len() == 0,
    ensures
        ({
            let log = after_writes(rows, source, writes);
            let got = recent_of(log, source, writes.len() as int);
            &&& in_time_order(log)
            &&& got.len() == writes.len()
            &&& got.to_multiset() == samples_of(source, writes).to_multiset()
            &&& forall|i: int, j: int|
                0 <= i < j < got.len() ==> (#[trigger] got[j]).fetched_at.le_spec(
                    (#[trigger] got[i]).fetched_at,
                )
            &&& writes.len() > 0 ==> latest_of(log, source) == Some(got[0])
            &&& forall|k: int|
                0 <= k < writes.len() ==> (#[trigger] writes[k]).0.le_spec(got[0].fetched_at)
        }),
{
    lemma_after_writes(rows, source, writes);
    let log = after_writes(rows, source, writes);
    let own = of_source(log, source);
    let got = recent_of(log, source, writes.len() as int);
    let given = samples_of(source, writes);
    vstd::seq_lib::to_multiset_len(own);
    vstd::seq_lib::to_multiset_len(given);
    vstd::seq_lib::to_multiset_len(of_source(rows, source));
    vstd::multiset::lemma_multiset_empty_len(of_source(rows, source).to_multiset());
    assert(Multiset::<SourceSampleView>::empty().add(given.to_multiset()) =~= given.to_multiset()) by {
        broadcast use vstd::multiset::group_multiset_axioms;

    }
    assert(own.to_multiset() == given.to_multiset());
    assert(own.len() == writes.len());
    assert(got =~= own.reverse());
    own.lemma_reverse_to_multiset();
    lemma_of_source_in_time_order(log, source);
    assert forall|k: int| 0 <= k < writes.len() implies (#[trigger] writes[k]).0.le_spec(
        got[0].fetched_at,
    ) by {
        let x = given[k];
        assert(given.contains(x));
        vstd::seq_lib::to_multiset_contains(given, x);
        vstd::seq_lib::to_multiset_contains(own, x);
        let i = choose|i: int| 0 <= i < own.len() && own[i] == x;
        assert(got[0] == own[own.len() - 1]);
        if i < own.len() - 1 {
            assert(own[i].fetched_at.le_spec(own[own.len() - 1].fetched_at));
        }
    }
}

/// A run of writes keeps the log in the order of time, and the rows of the
/// source afterwards are those from before together with the samples written.
pub proof fn lemma_after_writes(
    rows: Seq<SourceSampleView>,
    source: Seq<char>,
    writes: Seq<(Timestamp, serde_json::Value)>,
)
    requires
        in_time_order(rows),
    ensures
        in_time_order(after_writes(rows, source, writes)),
        of_source(after_writes(rows, source, writes), source).to_multiset() == of_source(
            rows,
            source,
        ).to_multiset().add(samples_of(source, writes).to_multiset()),
    decreases writes.len(),
{
    broadcast use vstd::multiset::group_multiset_axioms;

    if writes.len() == 0 {
        assert(samples_of(source, writes) =~= Seq::empty());
        vstd::seq_lib::to_multiset_len(samples_of(source, writes));
        vstd::multiset::lemma_multiset_empty_len(samples_of(source, writes).to_multiset());
        assert(samples_of(source, writes).to_multiset() =~= Multiset::empty());
        assert(of_source(rows, source).to_multiset().add(Multiset::empty()) =~= of_source(
            rows,
            source,
        ).to_multiset());
    } else {
        let front = writes.drop_last();
        let sample = sample_of(source, writes.last());
        lemma_after_writes(rows, source, front);
        let mid = after_writes(rows, source, front);
        lemma_placed_in_order(mid, stored_time(), sample);
        lemma_written_of_source(mid, sample, source);
        assert(samples_of(source, writes) =~= samples_of(source, front).push(sample));
        vstd::seq_lib::to_multiset_build(samples_of(source, front), sample);
        assert(of_source(rows, source).to_multiset().add(
            samples_of(source, front).to_multiset(),
        ).insert(sample) =~= of_source(rows, source).to_multiset().add(
            samples_of(source, front).to_multiset().insert(sample),
        ));
    }
}

/// Reading the most recent rows of a source gives the newest ones, newest
/// first, whatever the log holds: no row returned is stored later than the
/// one before it, and no row of the source that is left out is stored later
/// than one returned.
pub proof fn law_recent_newest_first(rows: Seq<SourceSampleView>, source: Seq<char>, n: nat)
    requires
        in_time_order(rows),
    ensures
        ({
            let own = of_source(rows, source);
            let got = recent_of(rows, source, n as int);
            &&& got.len() == if n < own.len() {
                n
            } else {
                own.len()
            }
            &&& forall|i: int, j: int|
                0 <= i < j < got.len() ==> (#[trigger] got[j]).fetched_at.le_spec(
                    (#[trigger] got[i]).fetched_at,
                )
            &&& forall|k: int, i: int|
                0 <= k < own.len() - got.len() && 0 <= i < got.len() ==> (#[trigger] own[k]).fetched_at.le_spec(
                    (#[trigger] got[i]).fetched_at,
                )
        }),
{
    lemma_of_source_in_time_order(rows, source);
    lemma_newest_first(of_source(rows, source), stored_time(), n as int);
}

/// The in-memory log. Rows are kept in the order of time; among rows of one
/// time, in the order of writing.
pub struct SampleCache {
    rows: Vec<SourceSample>,
}

impl View for SampleCache {
    type V = Seq<SourceSampleView>;

    closed spec fn view(&self) -> Seq<SourceSampleView> {
        views(self.rows@)
    }
}

impl SampleCache {
    /// The rows are in the order of time.
    pub open spec fn wf(&self) -> bool {
        in_time_order(self@)
    }

    /// An empty log.
    pub fn new() -> (r: SampleCache)
        ensures
            r.wf(),
            r@.len() == 0,
    {
        let r = SampleCache { rows: Vec::new() };
        assert(r@ =~= Seq::empty());
        r
    }

    /// Adds a row for `source`, stored at `fetched_at`. Nothing already in the
    /// log changes.
    pub fn write(&mut self, source: &str, payload: serde_json::Value, fetched_at: Timestamp)
        requires
            old(self).wf(),
        ensures
            final(self).wf(),
            final(self)@ == written(
                old(self)@,
                (SourceSampleView { source: source@, fetched_at, payload }),
            ),
    {
        let ghost sample = SourceSampleView { source: source@, fetched_at, payload };
        proof {
            lemma_placed_in_order(self@, stored_time(), sample);
        }
        let mut p: usize = self.rows.len();
        assert(self@.take(p as int) == self@);
        while p > 0 && !self.rows[p - 1].fetched_at.le(&fetched_at)
            invariant
                p <= self.rows.len(),
                self@ == old(self)@,
                place_for(self@, stored_time(), fetched_at) == place_for(
                    self@.take(p as int),
                    stored_time(),
                    fetched_at,
                ),
            decreases p,
        {
            assert(self@.take(p as int).last() == self.rows@[p - 1]@);
            assert(self@.take(p as int).drop_last() == self@.take(p - 1));
            p -= 1;
        }
        proof {
            if p > 0 {
                assert(self@.take(p as int).last() == self.rows@[p - 1]@);
            }
        }
        self.rows.insert(p, SourceSample { source: source.to_string(), fetched_at, payload });
        assert(self@ =~= written(old(self)@, sample));
    }

    /// The most recent row of a source; `None` while it has none.
    pub fn latest(&self, source: &str) -> (r: Option<SourceSample>)
        ensures
            r.is_some() == latest_of(self@, source@).is_some(),
            r.is_some() ==> r.unwrap()@ == latest_of(self@, source@).unwrap(),
    {
        let mut found = self.recent(source, 1);
        proof {
            let own = of_source(self@, source@);
            assert(views(found@).len() == found@.len());
            if own.len() > 0 {
                assert(recent_of(self@, source@, 1)[0] == own.last());
                assert(views(found@)[0] == found@[0]@);
            }
        }
        found.pop()
    }

    /// Up to `n` most recent rows of a source, newest first.
    pub fn recent(&self, source: &str, n: usize) -> (r: Vec<SourceSample>)
        ensures
            views(r@) == recent_of(self@, source@, n as int),
    {
        let mut out: Vec<SourceSample> = Vec::new();
        let mut p: usize = self.rows.len();
        assert(self@.skip(p as int) =~= Seq::empty());
        assert(of_source(Seq::<SourceSampleView>::empty(), source@) =~= Seq::empty());
        while p > 0 && out.len() < n
            invariant
                p <= self.rows.len(),
                out.len() <= n,
                views(out@) == of_source(self@.skip(p as int), source@).reverse(),
            decreases p,
        {
            p -= 1;
            let hit = str_eq(self.rows[p].source.as_str(), source);
            proof {
                lemma_of_source_from(self@, source@, p as int);
                assert(self@[p as int] == self.rows@[p as int]@);
            }
            if hit {
                let ghost before = views(out@);
                out.push(self.rows[p].clone());
                proof {
                    let rest = of_source(self@.skip(p as int + 1), source@);
                    let all = of_source(self@.skip(p as int), source@);
                    assert(all == seq![self@[p as int]] + rest);
                    assert(views(out@) =~= before.push(self@[p as int]));
                    assert(all.len() == rest.len() + 1);
                    assert forall|i: int| 0 <= i < all.len() implies all.reverse()[i] == before.push(
                        self@[p as int],
                    )[i] by {
                        if i < rest.len() {
                            assert(all[all.len() - 1 - i] == rest[rest.len() - 1 - i]);
                            assert(rest.reverse()[i] == rest[rest.len() - 1 - i]);
                        }
                    }
                    assert(views(out@) =~= all.reverse());
                }
            }
        }
        proof {
            let front = self@.take(p as int);
            let back = self@.skip(p as int);
            assert(self@ =~= front + back);
            Seq::filter_distributes_over_add(front, back, from_source(source@));
            if p == 0 {
                assert(front =~= Seq::empty());
                assert(of_source(front, source@) =~= Seq::empty());
            }
            assert(views(out@).len() == out@.len());
            assert(views(out@) =~= recent_of(self@, source@, n as int));
        }
        out
    }
}

} // verus!
