use rust_iss::errors::AppError;
use rust_iss::osdr_repo::{new_osdr_repo, OsdrFields, OsdrRepo};
use rust_iss::sample_cache::SampleCache;
use rust_iss::time::Timestamp;

fn doc(text: &str) -> serde_json::Value {
    serde_json::from_str(text).unwrap()
}

fn ts(secs: i64) -> Timestamp {
    Timestamp::new(secs, 0).unwrap()
}

#[test]
fn extract_fields_probes_each_list() {
    let d = doc("{\"accession\": \"OSD-1\", \"name\": \"Mice\", \"state\": \"open\", \"modified\": \"2015-05-15T00:00:00Z\"}");
    let f = OsdrRepo::extract_fields(&d);
    assert_eq!(f.dataset_id, Some(String::from("OSD-1")));
    assert_eq!(f.title, Some(String::from("Mice")));
    assert_eq!(f.status, Some(String::from("open")));
    assert_eq!(f.updated_at, Timestamp::new(1431648000, 0));
}

#[test]
fn extract_fields_of_an_empty_document() {
    let f = OsdrRepo::extract_fields(&doc("{}"));
    assert_eq!(f.dataset_id, None);
    assert_eq!(f.title, None);
    assert_eq!(f.status, None);
    assert_eq!(f.updated_at, None);
}

#[test]
fn same_key_twice_leaves_one_record() {
    let mut repo = new_osdr_repo();
    let first = doc("{\"dataset_id\": \"OSD-1\", \"title\": \"old\", \"status\": \"draft\", \"updated\": 100}");
    let second = doc("{\"dataset_id\": \"OSD-1\", \"title\": \"new\", \"status\": \"final\", \"updated\": 200}");
    assert_eq!(repo.upsert_osdr_items(&[first], ts(1000)), 1);
    assert_eq!(repo.upsert_osdr_items(&[second.clone()], ts(2000)), 0);
    assert_eq!(repo.get_count(), 1);
    let list = repo.get_list(10).unwrap();
    assert_eq!(list.len(), 1);
    assert_eq!(list[0].dataset_id, Some(String::from("OSD-1")));
    assert_eq!(list[0].title, Some(String::from("new")));
    assert_eq!(list[0].status, Some(String::from("final")));
    assert_eq!(list[0].updated_at, Some(ts(200)));
    assert_eq!(list[0].raw, second);
    assert_eq!(list[0].inserted_at, ts(1000));
}

#[test]
fn same_key_twice_in_one_batch() {
    let mut repo = new_osdr_repo();
    let a = doc("{\"id\": 7, \"title\": \"a\"}");
    let b = doc("{\"id\": 7, \"title\": \"b\"}");
    assert_eq!(repo.upsert_osdr_items(&[a, b.clone()], ts(5)), 1);
    let list = repo.get_list(10).unwrap();
    assert_eq!(list.len(), 1);
    assert_eq!(list[0].dataset_id, Some(String::from("7")));
    assert_eq!(list[0].title, Some(String::from("b")));
    assert_eq!(list[0].raw, b);
}

#[test]
fn distinct_keys_give_two_records() {
    let mut repo = new_osdr_repo();
    let a = doc("{\"dataset_id\": \"A\", \"title\": \"first\"}");
    let b = doc("{\"dataset_id\": \"B\", \"title\": \"second\"}");
    assert_eq!(repo.upsert_osdr_items(&[a.clone(), b.clone()], ts(1)), 2);
    assert_eq!(repo.get_count(), 2);
    let list = repo.get_list(10).unwrap();
    assert_eq!(list[0].dataset_id, Some(String::from("B")));
    assert_eq!(list[0].title, Some(String::from("second")));
    assert_eq!(list[0].raw, b);
    assert_eq!(list[1].dataset_id, Some(String::from("A")));
    assert_eq!(list[1].title, Some(String::from("first")));
    assert_eq!(list[1].raw, a);
}

#[test]
fn keyless_documents_never_merge() {
    let mut repo = new_osdr_repo();
    let d = doc("{\"title\": \"anonymous\"}");
    assert_eq!(repo.upsert_osdr_items(&[d.clone(), d.clone()], ts(1)), 2);
    assert_eq!(repo.upsert_osdr_items(&[d.clone()], ts(2)), 1);
    assert_eq!(repo.upsert_osdr_items(&[doc("{\"id\": \"anonymous\", \"title\": \"keyed\"}")], ts(3)), 1);
    assert_eq!(repo.get_count(), 4);
    let list = repo.get_list(10).unwrap();
    assert_eq!(list[3].dataset_id, None);
    assert_eq!(list[3].title, Some(String::from("anonymous")));
    assert_eq!(list[3].inserted_at, ts(1));
    assert_eq!(list[1].inserted_at, ts(2));
}

#[test]
fn upsert_item_says_whether_a_record_was_added() {
    let mut repo = new_osdr_repo();
    let fields = |key: Option<&str>, title: &str| OsdrFields {
        dataset_id: key.map(|k| k.to_string()),
        title: Some(title.to_string()),
        status: None,
        updated_at: None,
    };
    assert!(repo.upsert_item(fields(Some("k"), "one"), doc("1"), ts(1)));
    assert!(!repo.upsert_item(fields(Some("k"), "two"), doc("2"), ts(2)));
    assert!(repo.upsert_item(fields(None, "three"), doc("3"), ts(3)));
    let list = repo.get_list(10).unwrap();
    assert_eq!(list.len(), 2);
    assert_eq!(list[1].title, Some(String::from("two")));
    assert_eq!(list[1].status, None);
    assert_eq!(list[1].raw, doc("2"));
    assert_eq!(list[1].inserted_at, ts(1));
}

#[test]
fn get_list_is_newest_first_and_bounded() {
    let mut repo = new_osdr_repo();
    let docs = [doc("{\"id\": \"a\"}"), doc("{\"id\": \"b\"}"), doc("{\"id\": \"c\"}")];
    repo.upsert_osdr_items(&docs, ts(1));
    let keys = |n: i64| -> Vec<Option<String>> { repo.get_list(n).unwrap().into_iter().map(|r| r.dataset_id).collect() };
    assert_eq!(keys(0), Vec::<Option<String>>::new());
    assert_eq!(keys(2), vec![Some(String::from("c")), Some(String::from("b"))]);
    assert_eq!(keys(3).len(), 3);
    assert_eq!(keys(100).len(), 3);
}

#[test]
fn get_list_refuses_a_negative_limit() {
    let repo = new_osdr_repo();
    match repo.get_list(-1) {
        Err(AppError::Sqlx(m)) => assert_eq!(m, "LIMIT must not be negative"),
        other => panic!("unexpected: {:?}", other),
    }
}

#[test]
fn empty_cache_has_no_data() {
    let cache = SampleCache::new();
    assert!(cache.latest("apod").is_none());
    assert!(cache.recent("apod", 5).is_empty());
}

#[test]
fn latest_is_the_write_with_the_greatest_timestamp() {
    let mut cache = SampleCache::new();
    cache.write("neo", doc("1"), ts(50));
    cache.write("neo", doc("2"), ts(70));
    cache.write("neo", doc("3"), ts(60));
    cache.write("apod", doc("4"), ts(90));
    let latest = cache.latest("neo").unwrap();
    assert_eq!(latest.fetched_at, ts(70));
    assert_eq!(latest.payload, doc("2"));
    assert_eq!(latest.source, "neo");
}

#[test]
fn recent_returns_the_writes_newest_first() {
    let mut cache = SampleCache::new();
    let times = [30, 10, 50, 20, 40];
    for (i, t) in times.iter().enumerate() {
        cache.write("position", serde_json::Value::from(i as u64), ts(*t));
        cache.write("other", serde_json::Value::Null, ts(*t + 1));
    }
    let got = cache.recent("position", 5);
    let order: Vec<i64> = got.iter().map(|s| s.fetched_at.secs()).collect();
    assert_eq!(order, vec![50, 40, 30, 20, 10]);
    let payloads: Vec<serde_json::Value> = got.into_iter().map(|s| s.payload).collect();
    assert_eq!(payloads, vec![doc("2"), doc("4"), doc("0"), doc("3"), doc("1")]);
    let two: Vec<i64> = cache.recent("position", 2).iter().map(|s| s.fetched_at.secs()).collect();
    assert_eq!(two, vec![50, 40]);
    assert_eq!(cache.recent("position", 100).len(), 5);
    assert!(cache.recent("position", 0).is_empty());
}

#[test]
fn equal_timestamps_keep_the_order_of_writing() {
    let mut cache = SampleCache::new();
    cache.write("flr", doc("\"first\""), ts(5));
    cache.write("flr", doc("\"second\""), ts(5));
    let got = cache.recent("flr", 2);
    assert_eq!(got[0].payload, doc("\"second\""));
    assert_eq!(got[1].payload, doc("\"first\""));
}

#[test]
fn ingesting_a_batch_again_adds_nothing() {
    let mut repo = new_osdr_repo();
    repo.upsert_osdr_items(&[doc("{\"id\": \"z\"}")], ts(1));
    let batch = [doc("{\"id\": \"a\", \"title\": \"1\"}"), doc("{\"uuid\": \"b\"}"), doc("{\"id\": \"a\", \"title\": \"2\"}"), doc("{\"id\": 3}")];
    assert_eq!(repo.upsert_osdr_items(&batch, ts(2)), 3);
    assert_eq!(repo.upsert_osdr_items(&batch, ts(3)), 0);
    assert_eq!(repo.upsert_osdr_items(&batch, ts(4)), 0);
    assert_eq!(repo.get_count(), 4);
    let list = repo.get_list(10).unwrap();
    assert_eq!(list[2].dataset_id, Some(String::from("a")));
    assert_eq!(list[2].title, Some(String::from("2")));
    assert_eq!(list[2].inserted_at, ts(2));
}

#[test]
fn listing_follows_the_time_of_insertion() {
    let mut repo = new_osdr_repo();
    repo.upsert_osdr_items(&[doc("{\"title\": \"late\"}")], ts(100));
    repo.upsert_osdr_items(&[doc("{\"title\": \"early\"}")], ts(50));
    repo.upsert_osdr_items(&[doc("{\"id\": \"k\", \"title\": \"middle\"}")], ts(75));
    repo.upsert_osdr_items(&[doc("{\"title\": \"also late\"}")], ts(100));
    repo.upsert_osdr_items(&[doc("{\"id\": \"k\", \"title\": \"middle again\"}")], ts(200));
    let titles = |n: i64| -> Vec<(i64, String)> {
        repo.get_list(n).unwrap().into_iter().map(|r| (r.inserted_at.secs(), r.title.unwrap())).collect()
    };
    let all = vec![
        (100, String::from("also late")),
        (100, String::from("late")),
        (75, String::from("middle again")),
        (50, String::from("early")),
    ];
    assert_eq!(titles(10), all);
    assert_eq!(titles(2), all[..2].to_vec());
    assert_eq!(titles(1), all[..1].to_vec());
    assert_eq!(repo.get_count(), 4);
}
