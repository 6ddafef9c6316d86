//! The dataset catalog: an idempotent upsert store keyed by a business
//! identifier taken from each incoming document.
use vstd::prelude::*;

use crate::errors::AppError;
use crate::json_tools::{s_pick, s_pick_spec, t_pick, t_pick_spec};
use crate::models::{OsdrItem, OsdrItemView};
use crate::recency::{
    in_order, lemma_newest_first, lemma_place_in_bounds, lemma_placed_in_order, newest_first,
    place_for, placed,
};
use crate::text::{opt_text, str_eq};
use crate::time::Timestamp;

verus! {

/// The names probed, in order, for the business key.
pub const ID_KEYS: [&'static str; 6] = [
    "dataset_id",
    "id",
    "uuid",
    "studyId",
    "accession",
    "osdr_id",
];

/// The names probed, in order, for the title.
pub const TITLE_KEYS: [&'static str; 3] = ["title", "name", "label"];

/// The names probed, in order, for the status.
pub const STATUS_KEYS: [&'static str; 3] = ["status", "state", "lifecycle"];

/// The names probed, in order, for the time of the last update.
pub const UPDATED_KEYS: [&'static str; 5] = [
    "updated",
    "updated_at",
    "modified",
    "lastUpdated",
    "timestamp",
];

/// What is taken from a document before it is stored.
#[derive(Debug)]
pub struct OsdrFields {
    pub dataset_id: Option<String>,
    pub title: Option<String>,
    pub status: Option<String>,
    pub updated_at: Option<Timestamp>,
}

pub struct OsdrFieldsView {
    pub dataset_id: Option<Seq<char>>,
    pub title: Option<Seq<char>>,
    pub status: Option<Seq<char>>,
    pub updated_at: Option<Timestamp>,
}

impl View for OsdrFields {
    type V = OsdrFieldsView;

    open spec fn view(&self) -> OsdrFieldsView {
        OsdrFieldsView {
            dataset_id: opt_text(self.dataset_id),
            title: opt_text(self.title),
            status: opt_text(self.status),
            updated_at: self.updated_at,
        }
    }
}

/// The fields of a document: each the first usable value under its list of
/// candidate names.
pub open spec fn fields_of(doc: serde_json::Value) -> OsdrFieldsView {
    OsdrFieldsView {
        dataset_id: s_pick_spec(doc, ID_KEYS@),
        title: s_pick_spec(doc, TITLE_KEYS@),
        status: s_pick_spec(doc, STATUS_KEYS@),
        updated_at: t_pick_spec(doc, UPDATED_KEYS@),
    }
}

/// Whether some record carries the key.
pub open spec fn has_key(items: Seq<OsdrItemView>, key: Seq<char>) -> bool {
    exists|i: int| 0 <= i < items.len() && #[trigger] items[i].dataset_id == Some(key)
}

/// The place of a record that carries the key.
pub open spec fn index_of(items: Seq<OsdrItemView>, key: Seq<char>) -> int {
    choose|i: int| 0 <= i < items.len() && #[trigger] items[i].dataset_id == Some(key)
}

/// No two records carry the same key.
pub open spec fn distinct_keys(items: Seq<OsdrItemView>) -> bool {
    forall|i: int, j: int|
        0 <= i < j < items.len() && (#[trigger] items[i].dataset_id) is Some ==> items[i].dataset_id
            != (#[trigger] items[j].dataset_id)
}

/// A record after a document with its key has come in again: identity and
/// time of first persistence stay, everything else is the document's.
pub open spec fn merged(old: OsdrItemView, f: OsdrFieldsView, raw: serde_json::Value) -> OsdrItemView {
    OsdrItemView {
        dataset_id: old.dataset_id,
        title: f.title,
        status: f.status,
        updated_at: f.updated_at,
        inserted_at: old.inserted_at,
        raw,
    }
}

/// The record made for a document that is new to the catalog.
pub open spec fn fresh(f: OsdrFieldsView, raw: serde_json::Value, now: Timestamp) -> OsdrItemView {
    OsdrItemView {
        dataset_id: f.dataset_id,
        title: f.title,
        status: f.status,
        updated_at: f.updated_at,
        inserted_at: now,
        raw,
    }
}

/// Whether a document with these fields lands on a record already there.
pub open spec fn is_update(items: Seq<OsdrItemView>, f: OsdrFieldsView) -> bool {
    f.dataset_id is Some && has_key(items, f.dataset_id.unwrap())
}

/// The time at which a record was first stored.
pub open spec fn inserted_time() -> spec_fn(OsdrItemView) -> Timestamp {
    |r: OsdrItemView| r.inserted_at
}

/// Records in the order of their insertion times: none stands before one
/// that was inserted earlier.
pub open spec fn in_insertion_order(items: Seq<OsdrItemView>) -> bool {
    in_order(items, inserted_time())
}

/// Where a record inserted at `now` goes: behind every record that was not
/// inserted later.
pub open spec fn place_at(items: Seq<OsdrItemView>, now: Timestamp) -> int {
    place_for(items, inserted_time(), now)
}

/// The catalog after one document has come in at time `now`. A document
/// whose key is there is merged into its record, which keeps its place; any
/// other document becomes a new record at the place for `now`.
pub open spec fn upsert_one(
    items: Seq<OsdrItemView>,
    f: OsdrFieldsView,
    raw: serde_json::Value,
    now: Timestamp,
) -> Seq<OsdrItemView> {
    if is_update(items, f) {
        let i = index_of(items, f.dataset_id.unwrap());
        items.update(i, merged(items[i], f, raw))
    } else {
        placed(items, inserted_time(), fresh(f, raw, now))
    }
}

/// The catalog after a batch of documents has come in, in order, at time
/// `now`.
pub open spec fn upsert_all(
    items: Seq<OsdrItemView>,
    docs: Seq<serde_json::Value>,
    now: Timestamp,
) -> Seq<OsdrItemView>
    decreases docs.len(),
{
    if docs.len() == 0 {
        items
    } else {
        upsert_all(upsert_one(items, fields_of(docs[0]), docs[0], now), docs.drop_first(), now)
    }
}

/// The views of a run of records.
pub open spec fn views(items: Seq<OsdrItem>) -> Seq<OsdrItemView> {
    items.map_values(|x: OsdrItem| x@)
}

/// An upsert keeps the records in the order of their insertion times.
pub proof fn lemma_upsert_keeps_order(
    items: Seq<OsdrItemView>,
    f: OsdrFieldsView,
    raw: serde_json::Value,
    now: Timestamp,
)
    requires
        in_insertion_order(items),
    ensures
        in_insertion_order(upsert_one(items, f, raw, now)),
{
    let after = upsert_one(items, f, raw, now);
    if is_update(items, f) {
        assert forall|i: int, j: int| 0 <= i < j < after.len() implies (#[trigger] after[i]).inserted_at.le_spec(
            (#[trigger] after[j]).inserted_at,
        ) by {
            assert(after[i].inserted_at == items[i].inserted_at);
            assert(after[j].inserted_at == items[j].inserted_at);
        }
    } else {
        lemma_placed_in_order(items, inserted_time(), fresh(f, raw, now));
    }
}

/// An upsert keeps the keys distinct.
pub proof fn lemma_upsert_keeps_distinct(
    items: Seq<OsdrItemView>,
    f: OsdrFieldsView,
    raw: serde_json::Value,
    now: Timestamp,
)
    requires
        distinct_keys(items),
    ensures
        distinct_keys(upsert_one(items, f, raw, now)),
{
    let after = upsert_one(items, f, raw, now);
    if is_update(items, f) {
        assert forall|a: int, b: int|
            0 <= a < b < after.len() && (#[trigger] after[a].dataset_id) is Some implies after[a].dataset_id
            != (#[trigger] after[b].dataset_id) by {
            assert(after[a].dataset_id == items[a].dataset_id);
            assert(after[b].dataset_id == items[b].dataset_id);
        }
    } else {
        let p = place_at(items, now);
        lemma_place_in_bounds(items, inserted_time(), now);
        assert forall|a: int, b: int|
            0 <= a < b < after.len() && (#[trigger] after[a].dataset_id) is Some implies after[a].dataset_id
            != (#[trigger] after[b].dataset_id) by {
            let oa = if a < p {
                a
            } else {
                a - 1
            };
            let ob = if b < p {
                b
            } else {
                b - 1
            };
            if a == p {
                assert(after[b] == items[ob]);
                if after[b].dataset_id == f.dataset_id {
                    assert(items[ob].dataset_id == Some(f.dataset_id.unwrap()));
                    assert(has_key(items, f.dataset_id.unwrap()));
                }
            } else if b == p {
                assert(after[a] == items[oa]);
                if after[a].dataset_id == f.dataset_id {
                    assert(items[oa].dataset_id == Some(f.dataset_id.unwrap()));
                    assert(has_key(items, f.dataset_id.unwrap()));
                }
            } else {
                assert(after[a] == items[oa]);
                assert(after[b] == items[ob]);
                assert(items[oa].dataset_id is Some);
            }
        }
    }
}

/// Among distinct keys, the record that carries a key is the one that
/// `index_of` names.
pub proof fn lemma_index_of_unique(items: Seq<OsdrItemView>, key: Seq<char>, i: int)
    requires
        distinct_keys(items),
        0 <= i < items.len(),
        items[i].dataset_id == Some(key),
    ensures
        has_key(items, key),
        index_of(items, key) == i,
{
    let j = index_of(items, key);
    if j < i {
        assert(items[j].dataset_id is Some);
    } else if i < j {
        assert(items[i].dataset_id is Some);
    }
}

/// Where the record of a key stands once a document with that key has been
/// stored: where it stood, or at the place for a new record.
pub open spec fn place_of_key(items: Seq<OsdrItemView>, key: Seq<char>, now: Timestamp) -> int {
    if has_key(items, key) {
        index_of(items, key)
    } else {
        place_at(items, now)
    }
}

/// Ingesting a key again converges. Two documents with the same key, stored
/// one after the other, leave exactly one record for that key. It shows the
/// title, status, update time and raw text of the second document, and the
/// time at which the key was first inserted: the earlier one where the
/// catalog already held the key, else the time of the first of the two. No
/// other record changes.
pub proof fn law_same_key_twice(
    items: Seq<OsdrItemView>,
    f1: OsdrFieldsView,
    raw1: serde_json::Value,
    t1: Timestamp,
    f2: OsdrFieldsView,
    raw2: serde_json::Value,
    t2: Timestamp,
)
    requires
        distinct_keys(items),
        f1.dataset_id is Some,
        f1.dataset_id == f2.dataset_id,
    ensures
        ({
            let key = f1.dataset_id.unwrap();
            let once = upsert_one(items, f1, raw1, t1);
            let twice = upsert_one(once, f2, raw2, t2);
            let i = index_of(twice, key);
            &&& twice.len() == once.len()
            &&& 0 <= i < twice.len()
            &&& forall|j: int|
                0 <= j < twice.len() ==> ((#[trigger] twice[j].dataset_id) == Some(key) <==> j == i)
            &&& twice[i].title == f2.title
            &&& twice[i].status == f2.status
            &&& twice[i].updated_at == f2.updated_at
            &&& twice[i].raw == raw2
            &&& twice[i].inserted_at == if has_key(items, key) {
                items[index_of(items, key)].inserted_at
            } else {
                t1
            }
            &&& forall|j: int| 0 <= j < twice.len() && j != i ==> #[trigger] twice[j] == once[j]
        }),
{
    let key = f1.dataset_id.unwrap();
    let once = upsert_one(items, f1, raw1, t1);
    lemma_upsert_keeps_distinct(items, f1, raw1, t1);
    lemma_place_in_bounds(items, inserted_time(), t1);
    let p = place_of_key(items, key, t1);
    assert(once[p].dataset_id == Some(key));
    lemma_index_of_unique(once, key, p);
    let twice = upsert_one(once, f2, raw2, t2);
    lemma_upsert_keeps_distinct(once, f2, raw2, t2);
    assert(twice[p].dataset_id == Some(key));
    lemma_index_of_unique(twice, key, p);
    assert forall|j: int| 0 <= j < twice.len() implies ((#[trigger] twice[j].dataset_id) == Some(
        key,
    ) <==> j == p) by {
        if twice[j].dataset_id == Some(key) {
            lemma_index_of_unique(twice, key, j);
        }
    }
}

/// Distinct keys give independent records. Two documents with different
/// keys, stored one after the other, leave a record for each, in different
/// places; each record shows the title, status, update time and raw text of
/// its own document.
pub proof fn law_distinct_keys_independent(
    items: Seq<OsdrItemView>,
    f1: OsdrFieldsView,
    raw1: serde_json::Value,
    t1: Timestamp,
    f2: OsdrFieldsView,
    raw2: serde_json::Value,
    t2: Timestamp,
)
    requires
        distinct_keys(items),
        f1.dataset_id is Some,
        f2.dataset_id is Some,
        f1.dataset_id != f2.dataset_id,
    ensures
        ({
            let k1 = f1.dataset_id.unwrap();
            let k2 = f2.dataset_id.unwrap();
            let both = upsert_one(upsert_one(items, f1, raw1, t1), f2, raw2, t2);
            let i = index_of(both, k1);
            let j = index_of(both, k2);
            &&& has_key(both, k1)
            &&& has_key(both, k2)
            &&& 0 <= i < both.len()
            &&& 0 <= j < both.len()
            &&& i != j
            &&& both[i].dataset_id == Some(k1)
            &&& both[i].title == f1.title
            &&& both[i].status == f1.status
            &&& both[i].updated_at == f1.updated_at
            &&& both[i].raw == raw1
            &&& both[j].dataset_id == Some(k2)
            &&& both[j].title == f2.title
            &&& both[j].status == f2.status
            &&& both[j].updated_at == f2.updated_at
            &&& both[j].raw == raw2
            &&& !has_key(items, k1) && !has_key(items, k2) ==> both.len() == items.len() + 2
        }),
{
    let k1 = f1.dataset_id.unwrap();
    let k2 = f2.dataset_id.unwrap();
    let once = upsert_one(items, f1, raw1, t1);
    lemma_upsert_keeps_distinct(items, f1, raw1, t1);
    lemma_place_in_bounds(items, inserted_time(), t1);
    let p = place_of_key(items, k1, t1);
    assert(once[p].dataset_id == Some(k1));
    lemma_index_of_unique(once, k1, p);
    let both = upsert_one(once, f2, raw2, t2);
    lemma_upsert_keeps_distinct(once, f2, raw2, t2);
    lemma_place_in_bounds(once, inserted_time(), t2);
    let q = place_of_key(once, k2, t2);
    assert(both[q].dataset_id == Some(k2));
    lemma_index_of_unique(both, k2, q);
    let moved = if has_key(once, k2) || p < q {
        p
    } else {
        p + 1
    };
    assert(both[moved] == once[p]);
    lemma_index_of_unique(both, k1, moved);
    if !has_key(items, k1) && !has_key(items, k2) {
        if has_key(once, k2) {
            let w = index_of(once, k2);
            let before = if w < p {
                w
            } else {
                w - 1
            };
            assert(w != p);
            assert(once[w] == items[before]);
            assert(items[before].dataset_id == Some(k2));
        }
    }
}

/// A document without a key never merges. It always becomes a new record,
/// at the place for its time, and leaves every other record as it was; and
/// whatever document is stored next, with or without a key, that record stays
/// as it is, where it stood or one place further on.
pub proof fn law_keyless_never_merges(
    items: Seq<OsdrItemView>,
    f: OsdrFieldsView,
    raw: serde_json::Value,
    now: Timestamp,
    next: OsdrFieldsView,
    next_raw: serde_json::Value,
    later: Timestamp,
)
    requires
        distinct_keys(items),
        f.dataset_id is None,
    ensures
        ({
            let p = place_at(items, now);
            let after = upsert_one(items, f, raw, now);
            let then = upsert_one(after, next, next_raw, later);
            &&& 0 <= p <= items.len()
            &&& after == items.insert(p, fresh(f, raw, now))
            &&& then.len() >= after.len()
            &&& then[p] == fresh(f, raw, now) || then[p + 1] == fresh(f, raw, now)
        }),
{
    let p = place_at(items, now);
    lemma_place_in_bounds(items, inserted_time(), now);
    let after = upsert_one(items, f, raw, now);
    assert(after[p] == fresh(f, raw, now));
    lemma_place_in_bounds(after, inserted_time(), later);
    if is_update(after, next) {
        let i = index_of(after, next.dataset_id.unwrap());
        assert(after[i].dataset_id is Some);
        assert(i != p);
    } else {
        let q = place_at(after, later);
        let then = upsert_one(after, next, next_raw, later);
        if q <= p {
            assert(then[p + 1] == after[p]);
        } else {
            assert(then[p] == after[p]);
        }
    }
}

/// Every document of the batch carries a key that the catalog holds.
pub open spec fn all_known(items: Seq<OsdrItemView>, docs: Seq<serde_json::Value>) -> bool {
    forall|i: int|
        0 <= i < docs.len() ==> (#[trigger] fields_of(docs[i])).dataset_id is Some && has_key(
            items,
            fields_of(docs[i]).dataset_id.unwrap(),
        )
}

/// A key, once in the catalog, stays: no document removes or renames a
/// record.
pub proof fn lemma_keys_stay(
    items: Seq<OsdrItemView>,
    f: OsdrFieldsView,
    raw: serde_json::Value,
    now: Timestamp,
    key: Seq<char>,
)
    requires
        has_key(items, key) || f.dataset_id == Some(key),
    ensures
        has_key(upsert_one(items, f, raw, now), key),
{
    let after = upsert_one(items, f, raw, now);
    lemma_place_in_bounds(items, inserted_time(), now);
    let p = place_at(items, now);
    if has_key(items, key) {
        let i = index_of(items, key);
        if is_update(items, f) {
            assert(after[i].dataset_id == Some(key));
        } else if i < p {
            assert(after[i].dataset_id == Some(key));
        } else {
            assert(after[i + 1] == items[i]);
            assert(after[i + 1].dataset_id == Some(key));
        }
    } else {
        assert(after[p].dataset_id == Some(key));
    }
}

/// A batch of documents whose keys the catalog already holds adds no record.
pub proof fn lemma_known_batch_adds_nothing(
    items: Seq<OsdrItemView>,
    docs: Seq<serde_json::Value>,
    now: Timestamp,
)
    requires
        all_known(items, docs),
    ensures
        upsert_all(items, docs, now).len() == items.len(),
    decreases docs.len(),
{
    if docs.len() > 0 {
        let f = fields_of(docs[0]);
        let next = upsert_one(items, f, docs[0], now);
        let rest = docs.drop_first();
        assert forall|i: int| 0 <= i < rest.len() implies (#[trigger] fields_of(
            rest[i],
        )).dataset_id is Some && has_key(next, fields_of(rest[i]).dataset_id.unwrap()) by {
            assert(rest[i] == docs[i + 1]);
            let g = fields_of(docs[i + 1]);
            lemma_keys_stay(items, f, docs[0], now, g.dataset_id.unwrap());
        }
        lemma_known_batch_adds_nothing(next, rest, now);
    }
}

/// After a batch has been stored, the catalog holds the key of each of its
/// documents that has one, and every key it held before.
pub proof fn lemma_batch_keys_are_held(
    items: Seq<OsdrItemView>,
    docs: Seq<serde_json::Value>,
    now: Timestamp,
)
    ensures
        forall|key: Seq<char>|
            has_key(items, key) ==> has_key(#[trigger] upsert_all(items, docs, now), key),
        forall|i: int|
            0 <= i < docs.len() && (#[trigger] fields_of(docs[i])).dataset_id is Some ==> has_key(
                upsert_all(items, docs, now),
                fields_of(docs[i]).dataset_id.unwrap(),
            ),
    decreases docs.len(),
{
    if docs.len() > 0 {
        let f = fields_of(docs[0]);
        let next = upsert_one(items, f, docs[0], now);
        let rest = docs.drop_first();
        let all = upsert_all(items, docs, now);
        lemma_batch_keys_are_held(next, rest, now);
        assert forall|key: Seq<char>| has_key(items, key) implies has_key(all, key) by {
            lemma_keys_stay(items, f, docs[0], now, key);
        }
        assert forall|i: int|
            0 <= i < docs.len() && (#[trigger] fields_of(docs[i])).dataset_id is Some implies has_key(
            all,
            fields_of(docs[i]).dataset_id.unwrap(),
        ) by {
            if i == 0 {
                lemma_keys_stay(items, f, docs[0], now, f.dataset_id.unwrap());
            } else {
                assert(rest[i - 1] == docs[i]);
            }
        }
    }
}

/// Ingestion is idempotent. Storing a batch of documents that all carry a
/// key, and then storing the same batch again, at whatever time, adds no
/// record the second time.
pub proof fn law_ingesting_again_adds_nothing(
    items: Seq<OsdrItemView>,
    docs: Seq<serde_json::Value>,
    first: Timestamp,
    again: Timestamp,
)
    requires
        forall|i: int| 0 <= i < docs.len() ==> (#[trigger] fields_of(docs[i])).dataset_id is Some,
    ensures
        upsert_all(upsert_all(items, docs, first), docs, again).len() == upsert_all(
            items,
            docs,
            first,
        ).len(),
{
    lemma_batch_keys_are_held(items, docs, first);
    lemma_known_batch_adds_nothing(upsert_all(items, docs, first), docs, again);
}

/// A listing shows the newest records, newest first. Of a catalog in the
/// order of insertion times, no record listed was inserted later than the
/// one before it, and no record left out was inserted later than one listed.
pub proof fn law_listing_is_newest_first(items: Seq<OsdrItemView>, limit: int)
    requires
        in_insertion_order(items),
    ensures
        ({
            let got = newest_first(items, limit);
            &&& forall|i: int, j: int|
                0 <= i < j < got.len() ==> (#[trigger] got[j]).inserted_at.le_spec(
                    (#[trigger] got[i]).inserted_at,
                )
            &&& forall|k: int, i: int|
                0 <= k < items.len() - got.len() && 0 <= i < got.len() ==> (#[trigger] items[k]).inserted_at.le_spec(
                    (#[trigger] got[i]).inserted_at,
                )
        }),
{
    lemma_newest_first(items, inserted_time(), limit);
}

/// The in-memory catalog. Records are kept in the order of their insertion
/// times; among records of one time, in the order of insertion.
pub struct OsdrRepo {
    items: Vec<OsdrItem>,
}

/// An empty catalog.
pub fn new_osdr_repo() -> (r: OsdrRepo)
    ensures
        r.wf(),
        r@.len() == 0,
{
    let r = OsdrRepo { items: Vec::new() };
    assert(r@ =~= Seq::empty());
    r
}

impl View for OsdrRepo {
    type V = Seq<OsdrItemView>;

    closed spec fn view(&self) -> Seq<OsdrItemView> {
        views(self.items@)
    }
}

impl OsdrRepo {
    /// At most one record per business key, and the records in the order of
    /// their insertion times.
    pub open spec fn wf(&self) -> bool {
        distinct_keys(self@) && in_insertion_order(self@)
    }

    /// Takes the fields from a document.
    pub fn extract_fields(doc: &serde_json::Value) -> (r: OsdrFields)
        ensures
            r@ == fields_of(*doc),
    {
        OsdrFields {
            dataset_id: s_pick(doc, &ID_KEYS),
            title: s_pick(doc, &TITLE_KEYS),
            status: s_pick(doc, &STATUS_KEYS),
            updated_at: t_pick(doc, &UPDATED_KEYS),
        }
    }

    /// The place of the record with the key, if there is one.
    fn find(&self, key: &str) -> (r: Option<usize>)
        requires
            self.wf(),
        ensures
            r.is_some() == has_key(self@, key@),
            r.is_some() ==> r.unwrap() == index_of(self@, key@),
    {
        let mut i: usize = 0;
        while i < self.items.len()
            invariant
                i <= self.items.len(),
                self.wf(),
                forall|k: int| 0 <= k < i ==> (#[trigger] self@[k].dataset_id) != Some(key@),
            decreases self.items.len() - i,
        {
            let hit = match &self.items[i].dataset_id {
                Some(k) => str_eq(k.as_str(), key),
                None => false,
            };
            assert(self@[i as int] == self.items@[i as int]@);
            if hit {
                assert(self@[i as int].dataset_id == Some(key@));
                proof {
                    lemma_index_of_unique(self@, key@, i as int);
                }
                return Some(i);
            }
            i += 1;
        }
        None
    }

    /// The place for a record inserted at `now`.
    fn place(&self, now: &Timestamp) -> (p: usize)
        ensures
            p == place_at(self@, *now),
            p <= self@.len(),
    {
        let mut p: usize = self.items.len();
        assert(self@.take(p as int) == self@);
        while p > 0 && !self.items[p - 1].inserted_at.le(now)
            invariant
                p <= self.items.len(),
                place_at(self@, *now) == place_at(self@.take(p as int), *now),
            decreases p,
        {
            assert(self@.take(p as int).last() == self.items@[p - 1]@);
            assert(self@.take(p as int).drop_last() == self@.take(p - 1));
            p -= 1;
        }
        proof {
            if p > 0 {
                assert(self@.take(p as int).last() == self.items@[p - 1]@);
            }
        }
        p
    }

    /// Stores one document under the fields taken from it. A document whose
    /// key is already there overwrites that record's title, status, update
    /// time and raw document; any other document becomes a new record,
    /// inserted at `now` and placed behind every record that was not inserted
    /// later. Returns whether a record was added.
    pub fn upsert_item(&mut self, fields: OsdrFields, raw: serde_json::Value, now: Timestamp) -> (added: bool)
        requires
            old(self).wf(),
        ensures
            final(self).wf(),
            final(self)@ == upsert_one(old(self)@, fields@, raw, now),
            added == !is_update(old(self)@, fields@),
            final(self)@.len() == old(self)@.len() + if added { 1int } else { 0int },
    {
        proof {
            lemma_upsert_keeps_distinct(self@, fields@, raw, now);
            lemma_upsert_keeps_order(self@, fields@, raw, now);
        }
        let found = match &fields.dataset_id {
            Some(k) => self.find(k.as_str()),
            None => None,
        };
        match found {
            Some(i) => {
                let inserted_at = self.items[i].inserted_at;
                assert(self@[i as int] == self.items@[i as int]@);
                let item = OsdrItem {
                    dataset_id: fields.dataset_id,
                    title: fields.title,
                    status: fields.status,
                    updated_at: fields.updated_at,
                    inserted_at,
                    raw,
                };
                self.items.set(i, item);
                assert(self@ =~= upsert_one(old(self)@, fields@, raw, now));
                false
            },
            None => {
                let p = self.place(&now);
                let item = OsdrItem {
                    dataset_id: fields.dataset_id,
                    title: fields.title,
                    status: fields.status,
                    updated_at: fields.updated_at,
                    inserted_at: now,
                    raw,
                };
                self.items.insert(p, item);
                assert(self@ =~= upsert_one(old(self)@, fields@, raw, now));
                true
            },
        }
    }

    /// Stores a batch of documents, in order, all at time `now`. Returns the
    /// number of records added; a document that overwrote a record does not
    /// count.
    pub fn upsert_osdr_items(&mut self, items: &[serde_json::Value], now: Timestamp) -> (added: usize)
        requires
            old(self).wf(),
        ensures
            final(self).wf(),
            final(self)@ == upsert_all(old(self)@, items@, now),
            final(self)@.len() == old(self)@.len() + added,
    {
        let mut added: usize = 0;
        let mut i: usize = 0;
        assert(items@.skip(0) == items@);
        while i < items.len()
            invariant
                i <= items.len(),
                added <= i,
                self.wf(),
                self@.len() == old(self)@.len() + added,
                upsert_all(old(self)@, items@, now) == upsert_all(self@, items@.skip(i as int), now),
            decreases items.len() - i,
        {
            let fields = OsdrRepo::extract_fields(&items[i]);
            assert(items@.skip(i as int).drop_first() == items@.skip(i as int + 1));
            assert(items@.skip(i as int)[0] == items@[i as int]);
            if self.upsert_item(fields, items[i].clone(), now) {
                added += 1;
            }
            i += 1;
        }
        added
    }

    /// The number of records.
    pub fn get_count(&self) -> (r: usize)
        ensures
            r == self@.len(),
    {
        self.items.len()
    }

    /// The `limit` most recently inserted records, newest first: no record
    /// listed was inserted later than the one before it, and no record left
    /// out was inserted later than one listed. The catalog does not change.
    /// A negative limit is refused as the storage engine refuses it.
    pub fn get_list(&self, limit: i64) -> (r: Result<Vec<OsdrItem>, AppError>)
        requires
            self.wf(),
        ensures
            match r {
                Ok(list) => {
                    &&& limit >= 0
                    &&& views(list@) == newest_first(self@, limit as int)
                    &&& list@.len() == if limit < self@.len() {
                        limit as int
                    } else {
                        self@.len() as int
                    }
                    &&& forall|i: int, j: int|
                        0 <= i < j < list@.len() ==> (#[trigger] list@[j]).inserted_at.le_spec(
                            (#[trigger] list@[i]).inserted_at,
                        )
                    &&& forall|k: int, i: int|
                        0 <= k < self@.len() - list@.len() && 0 <= i < list@.len() ==> (#[trigger] self@[k]).inserted_at.le_spec(
                            (#[trigger] list@[i]).inserted_at,
                        )
                },
                Err(e) => limit < 0 && (e matches AppError::Sqlx(m) && m@
                    == "LIMIT must not be negative"@),
            },
    {
        if limit < 0 {
            return Err(AppError::Sqlx("LIMIT must not be negative".to_string()));
        }
        let n = self.items.len();
        let mut out: Vec<OsdrItem> = Vec::new();
        let mut i: usize = 0;
        while i < n && (i as u64) < (limit as u64)
            invariant
                n == self.items.len(),
                limit >= 0,
                i <= n,
                i <= limit,
                out@.len() == i,
                forall|k: int| 0 <= k < i ==> (#[trigger] out@[k])@ == self@[n - 1 - k],
            decreases n - i,
        {
            assert(self@[n - 1 - i] == self.items@[n - 1 - i]@);
            out.push(self.items[n - 1 - i].clone());
            i += 1;
        }
        proof {
            assert(views(out@) =~= newest_first(self@, limit as int));
            law_listing_is_newest_first(self@, limit as int);
            let got = newest_first(self@, limit as int);
            assert forall|a: int, b: int| 0 <= a < b < out@.len() implies (#[trigger] out@[b]).inserted_at.le_spec(
                (#[trigger] out@[a]).inserted_at,
            ) by {
                assert(got[a] == out@[a]@);
                assert(got[b] == out@[b]@);
            }
            assert forall|k: int, a: int|
                0 <= k < self@.len() - out@.len() && 0 <= a < out@.len() implies (#[trigger] self@[k]).inserted_at.le_spec(
                (#[trigger] out@[a]).inserted_at,
            ) by {
                assert(got[a] == out@[a]@);
            }
        }
        Ok(out)
    }
}

} // verus!
