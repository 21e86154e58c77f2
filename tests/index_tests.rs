use plan_index::detail::{DetailCache, Plan, ProviderABaseEvent, Zone};
use plan_index::engine::{map_provider_events_to_response_dto, search, QueryError};
use plan_index::index::{intersect_ids, IntervalIndex};
use plan_index::keys::{composite_id, detail_key, parse_composite_id};

fn ids(v: &[&str]) -> Vec<String> {
    v.iter().map(|s| s.to_string()).collect()
}

fn sorted(mut v: Vec<String>) -> Vec<String> {
    v.sort();
    v
}

fn record(base: &str, leaf: &str, prices: &[&str]) -> ProviderABaseEvent {
    ProviderABaseEvent {
        id: base.to_string(),
        title: format!("Title of {}", base),
        sell_mode: "online".to_string(),
        plan: Plan {
            plan_start_date: "2021-06-30T21:00:00".to_string(),
            plan_end_date: "2021-06-30T22:00:00".to_string(),
            plan_id: leaf.to_string(),
            sell_from: "2020-07-01T00:00:00".to_string(),
            sell_to: "2021-06-30T20:00:00".to_string(),
            sold_out: false,
            zones: prices
                .iter()
                .enumerate()
                .map(|(i, p)| Zone {
                    zone_id: format!("{}", i),
                    capacity: "100".to_string(),
                    price: p.to_string(),
                    name: format!("Zone {}", i),
                    numbered: i % 2 == 0,
                })
                .collect(),
        },
    }
}

#[test]
fn record_twice_leaves_index_as_once() {
    let id = composite_id("p1", "b1", "l1");
    let mut once = IntervalIndex::new();
    once.record(&id, 100, 200);
    let mut twice = IntervalIndex::new();
    twice.record(&id, 100, 200);
    twice.record(&id, 100, 200);
    assert_eq!(twice.by_start.len(), 1);
    assert_eq!(twice.by_end.len(), 1);
    assert_eq!(twice.by_start.get(&id), once.by_start.get(&id));
    assert_eq!(twice.by_end.get(&id), once.by_end.get(&id));
    assert_eq!(twice.query_overlap(0, 1000), once.query_overlap(0, 1000));
}

#[test]
fn record_again_overwrites_scores() {
    let id = composite_id("p1", "b1", "l1");
    let mut index = IntervalIndex::new();
    index.record(&id, 100, 200);
    index.record(&id, 300, 400);
    assert_eq!(index.by_start.len(), 1);
    assert_eq!(index.by_start.get(&id), Some(&300));
    assert_eq!(index.by_end.get(&id), Some(&400));
    assert!(index.query_overlap(100, 200).is_empty());
    assert_eq!(index.query_overlap(300, 400), vec![id]);
}

#[test]
fn overlap_uses_containment_with_inclusive_edges() {
    let mut index = IntervalIndex::new();
    let a = "t:a:1".to_string();
    let b = "t:b:1".to_string();
    let c = "t:c:1".to_string();
    index.record(&a, 10, 20);
    index.record(&b, 5, 9);
    index.record(&c, 21, 30);
    assert_eq!(index.query_overlap(10, 20), vec![a.clone()]);
    assert_eq!(index.query_overlap(9, 21), vec![a.clone()]);
    assert_eq!(sorted(index.query_overlap(5, 30)), sorted(vec![a.clone(), b.clone(), c.clone()]));
    assert!(!index.query_overlap(11, 20).contains(&a));
    assert!(!index.query_overlap(10, 19).contains(&a));
    let d = "t:d:1".to_string();
    index.record(&d, 9, 21);
    assert_eq!(sorted(index.query_overlap(9, 21)), sorted(vec![a.clone(), d.clone()]));
    assert!(!index.query_overlap(10, 21).contains(&d));
    assert!(!index.query_overlap(9, 20).contains(&d));
}

#[test]
fn intersection_keeps_common_ids_once() {
    let a = ids(&["x", "y", "y", "z"]);
    let b = ids(&["z", "y", "w"]);
    assert_eq!(intersect_ids(&a, &b), ids(&["y", "z"]));
    assert!(intersect_ids(&a, &Vec::new()).is_empty());
}

#[test]
fn composite_ids_split_into_three_parts() {
    let id = composite_id("prov", "base", "leaf");
    assert_eq!(id, "prov:base:leaf");
    let c = parse_composite_id(&id).unwrap();
    assert_eq!(c.tenant, "prov");
    assert_eq!(c.base_id, "base");
    assert_eq!(c.leaf_id, "leaf");
    assert!(parse_composite_id("base:leaf").is_none());
    assert!(parse_composite_id("a:b:c:d").is_none());
    assert!(parse_composite_id("plain").is_none());
    let e = parse_composite_id("::").unwrap();
    assert_eq!(e.tenant, "");
    assert_eq!(detail_key(&id), "detail:prov:base:leaf");
}

#[test]
fn missing_detail_is_left_out() {
    let mut index = IntervalIndex::new();
    let mut cache = DetailCache::new();
    let with = composite_id("p", "b1", "l1");
    let without = composite_id("p", "b2", "l2");
    index.record(&with, 10, 20);
    index.record(&without, 11, 19);
    cache.put(&with, &record("b1", "l1", &["5"]), 3600, 1000);
    let out = match search(&index, &cache, 0, 100, 1000, 100) {
        Ok(o) => o,
        Err(_) => panic!("a valid window must not fail"),
    };
    assert_eq!(out.matched.len(), 2);
    assert_eq!(out.records.len(), 1);
    assert_eq!(out.records[0].id, "b1");
    assert!(!out.truncated);
}

#[test]
fn malformed_member_is_skipped() {
    let mut index = IntervalIndex::new();
    let cache = DetailCache::new();
    index.record(&"no-separators".to_string(), 10, 20);
    let out = match search(&index, &cache, 0, 100, 0, 100) {
        Ok(o) => o,
        Err(_) => panic!("a valid window must not fail"),
    };
    assert_eq!(out.matched.len(), 1);
    assert!(out.records.is_empty());
}

#[test]
fn empty_match_gives_empty_events_and_no_error() {
    let index = IntervalIndex::new();
    let cache = DetailCache::new();
    let out = match search(&index, &cache, 0, 100, 0, 100) {
        Ok(o) => o,
        Err(_) => panic!("a valid window must not fail"),
    };
    assert!(out.matched.is_empty());
    let response = map_provider_events_to_response_dto(&out.records);
    assert!(response.data.events.is_empty());
    assert!(response.error.is_none());
}

#[test]
fn inverted_or_empty_window_is_rejected() {
    let mut index = IntervalIndex::new();
    index.record(&composite_id("p", "b", "l"), 10, 20);
    let cache = DetailCache::new();
    assert!(matches!(search(&index, &cache, 20, 20, 0, 100), Err(QueryError::Validation(_))));
    assert!(matches!(search(&index, &cache, 30, 10, 0, 100), Err(QueryError::Validation(_))));
}

#[test]
fn ceiling_truncates_and_flags() {
    let mut index = IntervalIndex::new();
    let mut cache = DetailCache::new();
    for i in 0..3 {
        let leaf = format!("l{}", i);
        let id = composite_id("p", "b", &leaf);
        index.record(&id, 10 + i, 20);
        cache.put(&id, &record("b", &leaf, &[]), 60, 0);
    }
    let out = match search(&index, &cache, 0, 100, 0, 2) {
        Ok(o) => o,
        Err(_) => panic!("a valid window must not fail"),
    };
    assert_eq!(out.matched.len(), 3);
    assert!(out.truncated);
    assert_eq!(out.records.len(), 2);
    let full = match search(&index, &cache, 0, 100, 0, 3) {
        Ok(o) => o,
        Err(_) => panic!("a valid window must not fail"),
    };
    assert!(!full.truncated);
    assert_eq!(full.records.len(), 3);
}

#[test]
fn expired_detail_leaves_a_ghost_member_that_queries_skip() {
    let mut index = IntervalIndex::new();
    let mut cache = DetailCache::new();
    let id = composite_id("p", "b", "l");
    index.record(&id, 10, 20);
    cache.put(&id, &record("b", "l", &["1"]), 60, 1000);
    let live = match search(&index, &cache, 0, 100, 1059, 10) {
        Ok(o) => o,
        Err(_) => panic!("a valid window must not fail"),
    };
    assert_eq!(live.records.len(), 1);
    let later = match search(&index, &cache, 0, 100, 1060, 10) {
        Ok(o) => o,
        Err(_) => panic!("a valid window must not fail"),
    };
    assert_eq!(later.matched, vec![id]);
    assert!(later.records.is_empty());
}
