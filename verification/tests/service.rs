use rust_iss::background::{spawn_background_tasks, Scheduler, SourceTask, TaskAction, TaskEvent};
use rust_iss::config::{env_u64, load_config, osdr_list_limit, required, Environment};
use rust_iss::errors::AppError;
use rust_iss::models::AppConfig;
use rust_iss::nasa_client::{fetch_failure, osdr_request_url, osdr_results, FetchStage};
use rust_iss::sample_cache::SampleCache;
use rust_iss::space_cache_service::{get_summary, latest_from_cache, parse_sources, refresh_cache, refresh_targets, FeedSource, DEFAULT_SOURCES};
use rust_iss::time::Timestamp;

fn environment() -> Environment {
    Environment {
        nasa_api_url: None,
        nasa_api_key: None,
        where_iss_url: None,
        redis_url: Some(String::from("redis://cache:6379")),
        fetch_every_seconds: None,
        iss_every_seconds: None,
        apod_every_seconds: None,
        neo_every_seconds: None,
        donki_every_seconds: None,
        spacex_every_seconds: None,
    }
}

fn config() -> AppConfig {
    load_config(&environment()).unwrap()
}

#[test]
fn load_config_defaults() {
    let c = config();
    assert_eq!(c.nasa_url, "https://visualization.osdr.nasa.gov/biodata/api/v2/datasets/?format=json");
    assert_eq!(c.nasa_key, "");
    assert_eq!(c.fallback_iss_url, "https://api.wheretheiss.at/v1/satellites/25544");
    assert_eq!(c.redis_url, "redis://cache:6379");
    assert_eq!((c.every_osdr, c.every_iss, c.every_apod, c.every_neo, c.every_donki, c.every_spacex), (600, 120, 43200, 7200, 3600, 3600));
}

#[test]
fn load_config_takes_what_is_set() {
    let mut env = environment();
    env.nasa_api_url = Some(String::from("http://osdr.test/?x=1"));
    env.nasa_api_key = Some(String::from("KEY"));
    env.where_iss_url = Some(String::from("http://iss.test"));
    env.fetch_every_seconds = Some(String::from("30"));
    env.iss_every_seconds = Some(String::from("+5"));
    env.apod_every_seconds = Some(String::from("never"));
    env.neo_every_seconds = Some(String::from("-1"));
    env.donki_every_seconds = Some(String::from(""));
    env.spacex_every_seconds = Some(String::from("18446744073709551616"));
    let c = load_config(&env).unwrap();
    assert_eq!(c.nasa_url, "http://osdr.test/?x=1");
    assert_eq!(c.nasa_key, "KEY");
    assert_eq!(c.fallback_iss_url, "http://iss.test");
    assert_eq!((c.every_osdr, c.every_iss, c.every_apod, c.every_neo, c.every_donki, c.every_spacex), (30, 5, 43200, 7200, 3600, 3600));
}

#[test]
fn load_config_never_fails() {
    let env = Environment {
        nasa_api_url: None,
        nasa_api_key: None,
        where_iss_url: None,
        redis_url: None,
        fetch_every_seconds: None,
        iss_every_seconds: None,
        apod_every_seconds: None,
        neo_every_seconds: None,
        donki_every_seconds: None,
        spacex_every_seconds: None,
    };
    let c = load_config(&env).unwrap();
    assert_eq!(c.redis_url, "redis://127.0.0.1:6379");
    assert_eq!(c.nasa_key, "");
    assert_eq!((c.every_osdr, c.every_iss, c.every_apod, c.every_neo, c.every_donki, c.every_spacex), (600, 120, 43200, 7200, 3600, 3600));
}

#[test]
fn each_interval_variable_sets_only_its_own_interval() {
    let mut env = environment();
    env.neo_every_seconds = Some(String::from("11"));
    let c = load_config(&env).unwrap();
    assert_eq!((c.every_osdr, c.every_iss, c.every_apod, c.every_neo, c.every_donki, c.every_spacex), (600, 120, 43200, 11, 3600, 3600));
}

#[test]
fn required_names_the_missing_setting() {
    assert_eq!(required(&Some(String::from("postgres://db")), "DATABASE_URL").unwrap(), "postgres://db");
    match required(&None, "DATABASE_URL") {
        Err(AppError::ConfigError(m)) => assert_eq!(m, "DATABASE_URL is required"),
        other => panic!("unexpected: {:?}", other),
    }
}

#[test]
fn number_settings_fall_back_to_the_default() {
    assert_eq!(env_u64(&None, 9), 9);
    assert_eq!(env_u64(&Some(String::from("12")), 9), 12);
    assert_eq!(env_u64(&Some(String::from(" 12")), 9), 9);
    assert_eq!(osdr_list_limit(&None), 20);
    assert_eq!(osdr_list_limit(&Some(String::from("-3"))), -3);
    assert_eq!(osdr_list_limit(&Some(String::from("many"))), 20);
}

#[test]
fn scheduler_of_the_service_has_six_loops() {
    let mut env = environment();
    env.iss_every_seconds = Some(String::from("7"));
    let s = spawn_background_tasks(&load_config(&env).unwrap());
    assert_eq!(s.len(), 6);
    let intervals: Vec<Option<u64>> = (0..7).map(|i| s.interval(i)).collect();
    assert_eq!(intervals, vec![Some(600), Some(7), Some(43200), Some(7200), Some(3600), Some(3600), None]);
}

#[test]
fn loop_sleeps_its_interval_after_every_outcome() {
    let mut s = Scheduler::new();
    let a = s.register("apod", 43200);
    let b = s.register("neo", 7200);
    assert_eq!((a, b), (0, 1));
    assert_eq!(s.on_event(a, TaskEvent::Started), Some(TaskAction::Run));
    assert_eq!(s.on_event(a, TaskEvent::Succeeded), Some(TaskAction::Sleep(43200)));
    assert_eq!(s.on_event(a, TaskEvent::Woke), Some(TaskAction::Run));
    for _ in 0..50 {
        assert_eq!(s.on_event(a, TaskEvent::Failed(String::from("upstream down"))), Some(TaskAction::Sleep(43200)));
        assert_eq!(s.on_event(a, TaskEvent::Woke), Some(TaskAction::Run));
    }
    assert_eq!(s.on_event(a, TaskEvent::Panicked(String::from("index out of bounds"))), Some(TaskAction::Sleep(43200)));
    assert_eq!(s.failures(a), Some(51));
    assert_eq!(s.failures(b), Some(0));
    assert_eq!(s.interval(b), Some(7200));
    assert_eq!(s.on_event(b, TaskEvent::Started), Some(TaskAction::Run));
    assert_eq!(s.on_event(b, TaskEvent::Succeeded), Some(TaskAction::Sleep(7200)));
}

#[test]
fn unknown_handle_changes_nothing() {
    let mut s = Scheduler::new();
    s.register("spacex", 3600);
    assert_eq!(s.on_event(1, TaskEvent::Failed(String::from("x"))), None);
    assert_eq!(s.failures(0), Some(0));
    assert_eq!(s.failures(1), None);
    assert_eq!(s.len(), 1);
}

#[test]
fn task_records_what_failed() {
    let mut t = SourceTask { source: String::from("osdr"), interval: 600, runs: u64::MAX - 1, failures: u64::MAX, last_error: None };
    assert_eq!(t.on_event(TaskEvent::Succeeded), TaskAction::Sleep(600));
    assert_eq!((t.runs, t.failures, t.last_error.clone()), (u64::MAX, u64::MAX, None));
    assert_eq!(t.on_event(TaskEvent::Failed(String::from("boom"))), TaskAction::Sleep(600));
    assert_eq!((t.runs, t.failures, t.last_error.clone()), (u64::MAX, u64::MAX, Some(String::from("boom"))));
    assert_eq!(t.on_event(TaskEvent::Woke), TaskAction::Run);
    assert_eq!(t.on_event(TaskEvent::Succeeded), TaskAction::Sleep(600));
    assert_eq!(t.last_error, Some(String::from("boom")));
    assert_eq!((t.source.as_str(), t.interval), ("osdr", 600));
}

#[test]
fn parse_sources_cleans_the_list() {
    assert_eq!(parse_sources(" APOD , neo,,FLR ,  , Cme,spaceX,mars"), vec!["apod", "neo", "flr", "cme", "spacex", "mars"]);
    assert_eq!(parse_sources(""), Vec::<String>::new());
    assert_eq!(parse_sources(" , ,"), Vec::<String>::new());
    assert_eq!(parse_sources(DEFAULT_SOURCES), vec!["apod", "neo", "flr", "cme", "spacex"]);
}

#[test]
fn refresh_targets_pass_over_unknown_names() {
    assert_eq!(refresh_targets(&["apod", "mars", "cme", "APOD", "spacex", "flr", "neo", ""]), vec![FeedSource::Apod, FeedSource::Cme, FeedSource::Spacex, FeedSource::Flr, FeedSource::Neo]);
    assert_eq!(refresh_targets(&[]), Vec::<FeedSource>::new());
    assert_eq!(FeedSource::from_name("neo"), Some(FeedSource::Neo));
    assert_eq!(FeedSource::from_name("Neo"), None);
    assert_eq!(FeedSource::Spacex.name(), "spacex");
}

#[test]
fn refresh_cache_names_what_succeeded() {
    let targets = vec![FeedSource::Apod, FeedSource::Neo, FeedSource::Flr, FeedSource::Cme, FeedSource::Spacex];
    assert_eq!(refresh_cache(&targets, &vec![true, false, true, false, true]), vec!["apod", "flr", "spacex"]);
    assert_eq!(refresh_cache(&targets, &vec![false; 5]), Vec::<&str>::new());
    assert_eq!(refresh_cache(&targets, &vec![true, true]), vec!["apod", "neo"]);
    assert_eq!(refresh_cache(&vec![], &vec![true]), Vec::<&str>::new());
}

#[test]
fn summary_shows_the_latest_of_each_source() {
    let at = |s: i64| Timestamp::new(s, 0).unwrap();
    let mut cache = SampleCache::new();
    cache.write("apod", serde_json::Value::from("old"), at(1));
    cache.write("apod", serde_json::Value::from("new"), at(2));
    cache.write("iss", serde_json::Value::from(5), at(3));
    let s = get_summary(&cache, 12, None);
    assert_eq!(s.apod.unwrap().payload, serde_json::Value::from("new"));
    assert!(s.neo.is_none() && s.flr.is_none() && s.cme.is_none() && s.spacex.is_none());
    assert_eq!(s.iss.unwrap().fetched_at, at(3));
    assert_eq!(s.osdr_count, 12);
    assert_eq!(s.iss_position, None);
    assert!(latest_from_cache(&cache, "neo").is_none());
    assert_eq!(latest_from_cache(&cache, "apod").unwrap().fetched_at, at(2));
}

#[test]
fn catalog_request_and_answer() {
    assert_eq!(osdr_request_url("http://osdr.test/?format=json", "K1"), "http://osdr.test/?format=json&api_key=K1");
    let body: serde_json::Value = serde_json::from_str("{\"results\": [{\"id\": 1}, 2, \"x\"], \"count\": 3}").unwrap();
    let items = osdr_results(&body);
    assert_eq!(items.len(), 3);
    assert_eq!(items[0], serde_json::from_str::<serde_json::Value>("{\"id\": 1}").unwrap());
    assert_eq!(items[2], serde_json::Value::from("x"));
    for text in ["{}", "{\"results\": {\"a\": 1}}", "[1]", "{\"results\": null}"] {
        let other: serde_json::Value = serde_json::from_str(text).unwrap();
        assert!(osdr_results(&other).is_empty(), "for {}", text);
    }
}

#[test]
fn fetch_failures_are_classified_by_stage() {
    for stage in [FetchStage::Send, FetchStage::Status] {
        match fetch_failure(stage, String::from("connection reset")) {
            AppError::ClientError(m, s) => assert_eq!((m.as_str(), s.code()), ("connection reset", 502)),
            other => panic!("unexpected: {:?}", other),
        }
    }
    match fetch_failure(FetchStage::Decode, String::from("expected value")) {
        AppError::SerializationError(m) => assert_eq!(m, "expected value"),
        other => panic!("unexpected: {:?}", other),
    }
}
