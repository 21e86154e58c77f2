use plan_index::codec::{decode_fields, encode_fields};
use plan_index::detail::{decode_record, encode_record, DetailCache, Plan, ProviderABaseEvent, Zone};
use plan_index::engine::{event_view, map_provider_events_to_response_dto};
use plan_index::error::CacheError;
use plan_index::price::parse_price;
use plan_index::text::split_datetime;

fn sample(prices: &[&str]) -> ProviderABaseEvent {
    ProviderABaseEvent {
        id: "291".to_string(),
        title: "Camela en concierto | gira".to_string(),
        sell_mode: "online".to_string(),
        plan: Plan {
            plan_start_date: "2021-06-30T21:00:00".to_string(),
            plan_end_date: "2021-06-30T22:00:00".to_string(),
            plan_id: "291".to_string(),
            sell_from: "2020-07-01T00:00:00".to_string(),
            sell_to: "2021-06-30T20:00:00".to_string(),
            sold_out: true,
            zones: prices
                .iter()
                .enumerate()
                .map(|(i, p)| Zone {
                    zone_id: format!("{}", 40 + i),
                    capacity: "243".to_string(),
                    price: p.to_string(),
                    name: format!("Platea \\ {}", i),
                    numbered: i == 1,
                })
                .collect(),
        },
    }
}

fn same(a: &ProviderABaseEvent, b: &ProviderABaseEvent) -> bool {
    a.id == b.id
        && a.title == b.title
        && a.sell_mode == b.sell_mode
        && a.plan.plan_start_date == b.plan.plan_start_date
        && a.plan.plan_end_date == b.plan.plan_end_date
        && a.plan.plan_id == b.plan.plan_id
        && a.plan.sell_from == b.plan.sell_from
        && a.plan.sell_to == b.plan.sell_to
        && a.plan.sold_out == b.plan.sold_out
        && a.plan.zones.len() == b.plan.zones.len()
        && a.plan.zones.iter().zip(b.plan.zones.iter()).all(|(x, y)| {
            x.zone_id == y.zone_id
                && x.capacity == y.capacity
                && x.price == y.price
                && x.name == y.name
                && x.numbered == y.numbered
        })
}

#[test]
fn put_then_get_returns_equal_record() {
    let mut cache = DetailCache::new();
    let original = sample(&["10.0", "25.5", "3.0"]);
    cache.put("p:291:291", &original, 3600, 1_700_000_000);
    match cache.get("p:291:291", 1_700_000_000) {
        Ok(back) => assert!(same(&back, &original)),
        Err(_) => panic!("the record was just written"),
    }
}

#[test]
fn expired_or_absent_detail_is_not_found() {
    let mut cache = DetailCache::new();
    cache.put("p:1:1", &sample(&[]), 60, 1000);
    assert!(cache.get("p:1:1", 1059).is_ok());
    match cache.get("p:1:1", 1060) {
        Err(CacheError::NotFound(k)) => assert_eq!(k, "detail:p:1:1"),
        _ => panic!("an expired record is not found"),
    }
    match cache.get("p:2:2", 1000) {
        Err(CacheError::NotFound(k)) => assert_eq!(k, "detail:p:2:2"),
        _ => panic!("an absent record is not found"),
    }
}

#[test]
fn record_text_round_trips_with_special_characters() {
    let original = sample(&["1", "2"]);
    let text = encode_record(&original);
    assert!(text.contains("Camela en concierto \\| gira|"));
    let back = decode_record(&text).unwrap();
    assert!(same(&back, &original));
    assert!(decode_record("not a record").is_none());
    assert!(decode_record("a|b|c|").is_none());
}

#[test]
fn field_codec_escapes_and_rejects_bad_text() {
    let fields = vec!["a|b".to_string(), "".to_string(), "c\\d".to_string()];
    let text = encode_fields(&fields);
    assert_eq!(text, "a\\|b||c\\\\d|");
    assert_eq!(decode_fields(&text), Some(fields));
    assert_eq!(decode_fields(""), Some(Vec::new()));
    assert_eq!(decode_fields("abc"), None);
    assert_eq!(decode_fields("a\\x|"), None);
    assert_eq!(decode_fields("a\\"), None);
}

#[test]
fn prices_aggregate_to_lowest_and_highest() {
    let view = event_view(&sample(&["10.0", "25.5", "3.0"]));
    assert_eq!(view.min_price, "3.0");
    assert_eq!(view.max_price, "25.5");
    assert_eq!(view.min_price.parse::<f64>().unwrap(), 3.0);
    assert_eq!(view.max_price.parse::<f64>().unwrap(), 25.5);
}

#[test]
fn no_zones_price_at_zero() {
    let view = event_view(&sample(&[]));
    assert_eq!(view.min_price, "0");
    assert_eq!(view.max_price, "0");
    assert_eq!(view.min_price.parse::<f64>().unwrap(), 0.0);
    let unpriced = event_view(&sample(&["free", ""]));
    assert_eq!(unpriced.min_price, "0");
    assert_eq!(unpriced.max_price, "0");
}

#[test]
fn unreadable_prices_are_ignored_and_ties_take_the_first() {
    let view = event_view(&sample(&["abc", "7.50", "7.5", "12"]));
    assert_eq!(view.min_price, "7.50");
    assert_eq!(view.max_price, "12");
}

#[test]
fn price_values_are_exact() {
    assert_eq!(parse_price("25.5"), Some(25_500_000_000_000_000_000));
    assert_eq!(parse_price("3"), Some(3_000_000_000_000_000_000));
    assert_eq!(parse_price(".5"), Some(500_000_000_000_000_000));
    assert_eq!(parse_price("0.000000000000000001"), Some(1));
    assert_eq!(parse_price("999999999999999999"), Some(999_999_999_999_999_999_000_000_000_000_000_000));
    assert_eq!(parse_price("1000000000000000000"), None);
    assert_eq!(parse_price("0.0000000000000000001"), None);
    assert_eq!(parse_price("1.2.3"), None);
    assert_eq!(parse_price("-1"), None);
    assert_eq!(parse_price("."), None);
    assert_eq!(parse_price(""), None);
}

#[test]
fn datetimes_split_at_first_t() {
    assert_eq!(
        split_datetime("2021-06-30T21:00:00"),
        ("2021-06-30".to_string(), "21:00:00".to_string())
    );
    assert_eq!(split_datetime("2021-06-30"), ("2021-06-30".to_string(), "".to_string()));
    assert_eq!(split_datetime("aTbTc"), ("a".to_string(), "bTc".to_string()));
}

#[test]
fn response_has_one_view_per_record() {
    let records = vec![sample(&["10.0", "25.5", "3.0"]), sample(&[])];
    let response = map_provider_events_to_response_dto(&records);
    assert!(response.error.is_none());
    assert_eq!(response.data.events.len(), 2);
    let first = &response.data.events[0];
    assert_eq!(first.id, "291");
    assert_eq!(first.title, "Camela en concierto | gira");
    assert_eq!(first.start_date, "2021-06-30");
    assert_eq!(first.start_time, "21:00:00");
    assert_eq!(first.end_date, "2021-06-30");
    assert_eq!(first.end_time, "22:00:00");
    assert_eq!(response.data.events[1].min_price, "0");
}
