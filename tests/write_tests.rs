use plan_index::config::{Config, WorkerConfig};
use plan_index::detail::{DetailCache, Plan, ProviderABaseEvent};
use plan_index::engine::{check_window, search, QueryError};
use plan_index::index::IntervalIndex;
use plan_index::transport::{decide_window, parse_window, ErrorResponse};
use plan_index::write::{index_entity, plan_index_write, plan_interval, IndexWriteError, SellModeEnum};

fn entity(base: &str, leaf: &str) -> ProviderABaseEvent {
    ProviderABaseEvent {
        id: base.to_string(),
        title: "Los Morancos".to_string(),
        sell_mode: "online".to_string(),
        plan: Plan {
            plan_start_date: "2021-07-31T20:00:00".to_string(),
            plan_end_date: "2021-07-31T21:00:00".to_string(),
            plan_id: leaf.to_string(),
            sell_from: "2021-06-26T00:00:00".to_string(),
            sell_to: "2021-07-31T19:50:00".to_string(),
            sold_out: false,
            zones: Vec::new(),
        },
    }
}

#[test]
fn online_entity_is_indexed_and_found() {
    let mut index = IntervalIndex::new();
    let mut cache = DetailCache::new();
    let r = index_entity(
        &mut index,
        &mut cache,
        "prov",
        &entity("322", "1642"),
        Some(SellModeEnum::Online),
        1_627_761_600,
        1_627_765_200,
        3600,
        1_627_000_000,
    );
    assert!(matches!(r, Ok(true)));
    let out = match search(&index, &cache, 1_627_700_000, 1_627_800_000, 1_627_000_000, 10) {
        Ok(o) => o,
        Err(_) => panic!("a valid window must not fail"),
    };
    assert_eq!(out.matched, vec!["prov:322:1642".to_string()]);
    assert_eq!(out.records.len(), 1);
    assert_eq!(out.records[0].plan.plan_id, "1642");
}

#[test]
fn offline_or_unknown_entity_is_skipped() {
    let mut index = IntervalIndex::new();
    let mut cache = DetailCache::new();
    for mode in [Some(SellModeEnum::Offline), None] {
        let r = index_entity(&mut index, &mut cache, "prov", &entity("1", "2"), mode, 0, 10, 60, 0);
        assert!(matches!(r, Ok(false)));
    }
    assert_eq!(index.by_start.len(), 0);
    assert_eq!(cache.entries.len(), 0);
}

#[test]
fn entity_with_separator_in_id_is_an_index_error() {
    let mut index = IntervalIndex::new();
    let mut cache = DetailCache::new();
    let r = index_entity(
        &mut index,
        &mut cache,
        "prov",
        &entity("a:b", "2"),
        Some(SellModeEnum::Online),
        0,
        10,
        60,
        0,
    );
    assert!(matches!(r, Err(IndexWriteError::InvalidId(_))));
    assert_eq!(index.by_start.len(), 0);
    assert_eq!(cache.entries.len(), 0);
}

#[test]
fn planned_write_names_member_and_key() {
    let w = match plan_index_write("prov", &entity("322", "1642"), Some(SellModeEnum::Online), 5, 9) {
        Ok(Some(w)) => w,
        _ => panic!("an online entity is written"),
    };
    assert_eq!(w.member, "prov:322:1642");
    assert_eq!(w.detail_key, "detail:prov:322:1642");
    assert_eq!((w.start_epoch, w.end_epoch), (5, 9));
    assert!(w.detail_text.starts_with("322|Los Morancos|online|"));
    assert_eq!(SellModeEnum::Online.as_text(), "online");
    assert_eq!(SellModeEnum::Offline.as_text(), "offline");
}

#[test]
fn window_texts_are_read_as_utc_seconds() {
    match parse_window("2023-11-14T22:13:20", "2023-11-14T23:13:20") {
        Ok((from, to)) => {
            assert_eq!(from, 1_700_000_000);
            assert_eq!(to, 1_700_003_600);
        }
        Err(_) => panic!("a valid window must be read"),
    }
}

#[test]
fn bad_window_texts_are_validation_errors() {
    let cases = [
        ("", "2023-11-14T23:13:20"),
        ("2023-11-14T22:13:20", ""),
        ("2023-11-14 22:13:20", "2023-11-14T23:13:20"),
        ("2023-11-14T22:13:20", "tomorrow"),
        ("2023-11-14T23:13:20", "2023-11-14T22:13:20"),
        ("2023-11-14T22:13:20", "2023-11-14T22:13:20"),
    ];
    for (s, e) in cases {
        assert!(matches!(parse_window(s, e), Err(QueryError::Validation(_))));
    }
    assert!(matches!(decide_window("a", "b", Some(1), Some(2)), Ok((1, 2))));
    assert!(matches!(decide_window("a", "b", Some(2), Some(1)), Err(QueryError::Validation(_))));
    assert!(matches!(decide_window("a", "b", None, Some(1)), Err(QueryError::Validation(_))));
    assert!(check_window(1, 2).is_ok());
    assert!(matches!(check_window(2, 2), Err(QueryError::Validation(_))));
}

#[test]
fn query_errors_map_to_statuses() {
    let (s, body) = ErrorResponse::for_query_error(&QueryError::Validation("bad".to_string()));
    assert_eq!(s, 400);
    assert_eq!(body.error.code, "bad_request");
    assert_eq!(body.error.message, "bad");
    assert!(body.data.is_none());
    let (s, body) = ErrorResponse::for_query_error(&QueryError::StoreUnavailable("down".to_string()));
    assert_eq!(s, 503);
    assert_eq!(body.error.code, "service_unavailable");
    let (s, body) = ErrorResponse::for_query_error(&QueryError::Internal("x".to_string()));
    assert_eq!(s, 500);
    assert_eq!(body.error.code, "internal_error");
    let e = ErrorResponse::new("c", "m");
    assert_eq!((e.error.code.as_str(), e.error.message.as_str()), ("c", "m"));
}

#[test]
fn configuration_defaults() {
    let c = Config::defaults();
    assert_eq!(c.actix_client_shutdown_ms, 5000);
    assert_eq!(c.actix_client_timeout_ms, 5000);
    assert_eq!(c.actix_shutdown_timeout_s, 30);
    assert_eq!(c.actix_keepalive_seconds, 5);
    assert_eq!(c.actix_num_workers, 4);
    assert_eq!(c.web_app_server, "127.0.0.1:8080");
    let w = WorkerConfig::defaults();
    assert_eq!(w.async_worker_interval_sec, 300);
    assert_eq!(w.redis_expiration_key_time_limit_sec, 3600);
}

#[test]
fn plan_interval_reads_both_timestamps() {
    assert_eq!(plan_interval(&entity("1", "2")), Some((1_627_761_600, 1_627_765_200)));
    let mut bad = entity("1", "2");
    bad.plan.plan_end_date = "2021-07-31".to_string();
    assert_eq!(plan_interval(&bad), None);
}
