use marksman::config::Config;
use marksman::error::{ResyAPIError, ResyClientError};
use marksman::json::{Json, JsonNumber};
use marksman::slots::{
    format_slots, race_candidates, resolve_slots, slots_from_response, sort_slots_by_closest_time,
    ResySlot,
};

fn num(n: u64) -> Json {
    Json::Number(JsonNumber { text: n.to_string(), unsigned: Some(n), signed: Some(n as i64) })
}

fn text(s: &str) -> Json {
    Json::Str(s.to_string())
}

fn obj(members: Vec<(&str, Json)>) -> Json {
    Json::Object(members.into_iter().map(|(k, v)| (k.to_string(), v)).collect())
}

fn entry(id: u64, start: &str) -> Json {
    obj(vec![
        ("config", obj(vec![("id", num(id)), ("token", text(&format!("tok-{}", id))), ("type", text("Dining Room"))])),
        ("date", obj(vec![("start", text(start)), ("end", text("2024-05-01 23:00:00"))])),
        ("size", obj(vec![("min", num(1)), ("max", num(4))])),
        ("quantity", num(2)),
    ])
}

fn response(entries: Vec<Json>) -> Json {
    obj(vec![("results", obj(vec![("venues", Json::Array(vec![obj(vec![("slots", Json::Array(entries))])]))]))])
}

fn slot(start: &str) -> ResySlot {
    ResySlot {
        id: start.to_string(),
        token: format!("tok {}", start),
        slot_type: "Dining Room".to_string(),
        start: start.to_string(),
        end: "2024-05-01 23:00:00".to_string(),
        min_size: 1,
        max_size: 4,
        quantity: 1,
    }
}

fn starts(slots: &[ResySlot]) -> Vec<String> {
    slots.iter().map(|s| s.start.clone()).collect()
}

fn complete_config() -> Config {
    Config {
        api_key: "key".to_string(),
        auth_token: "token".to_string(),
        venue_id: "6194".to_string(),
        venue_slug: "carbone".to_string(),
        date: "2024-05-01".to_string(),
        party_size: 2,
        target_time: None,
        payment_id: "42".to_string(),
    }
}

#[test]
fn ranking_by_distance_from_preferred_time() {
    let slots = vec![slot("2024-05-01 18:00:00"), slot("2024-05-01 18:30:00"), slot("2024-05-01 19:15:00")];
    let ranked = sort_slots_by_closest_time(slots, "1900");
    assert_eq!(
        starts(&ranked),
        vec!["2024-05-01 19:15:00", "2024-05-01 18:30:00", "2024-05-01 18:00:00"]
    );
}

#[test]
fn ranking_keeps_order_of_equal_distances() {
    let mut a = slot("2024-05-01 18:30:00");
    a.id = "first".to_string();
    let mut b = slot("2024-05-01 19:30:00");
    b.id = "second".to_string();
    let mut c = slot("2024-05-01 18:30:00");
    c.id = "third".to_string();
    let ranked = sort_slots_by_closest_time(vec![a, b, c], "1900");
    let ids: Vec<String> = ranked.iter().map(|s| s.id.clone()).collect();
    assert_eq!(ids, vec!["first", "second", "third"]);
}

#[test]
fn ranking_drops_unreadable_starts() {
    let slots = vec![slot("soon"), slot("2024-05-01 20:00:00"), slot("2024-05-01 2x:00:00")];
    let ranked = sort_slots_by_closest_time(slots, "1900");
    assert_eq!(starts(&ranked), vec!["2024-05-01 20:00:00"]);
}

#[test]
fn ranking_with_unreadable_preferred_time_is_empty() {
    let slots = vec![slot("2024-05-01 18:00:00")];
    assert!(sort_slots_by_closest_time(slots, "7pm").is_empty());
}

#[test]
fn ranking_distance_is_not_wrapped_round_midnight() {
    let slots = vec![slot("2024-05-01 00:10:00"), slot("2024-05-01 22:00:00")];
    let ranked = sort_slots_by_closest_time(slots, "2350");
    assert_eq!(starts(&ranked), vec!["2024-05-01 22:00:00", "2024-05-01 00:10:00"]);
}

#[test]
fn format_slots_reads_entries_in_order() {
    let r = response(vec![entry(7, "2024-05-01 19:00:00"), entry(9, "2024-05-01 18:00:00")]);
    let slots = format_slots(&r);
    assert_eq!(slots.len(), 2);
    assert_eq!(slots[0].id, "7");
    assert_eq!(slots[0].token, "tok-7");
    assert_eq!(slots[0].slot_type, "Dining Room");
    assert_eq!(slots[0].start, "2024-05-01 19:00:00");
    assert_eq!(slots[0].end, "2024-05-01 23:00:00");
    assert_eq!((slots[0].min_size, slots[0].max_size, slots[0].quantity), (1, 4, 2));
    assert_eq!(slots[1].id, "9");
}

#[test]
fn format_slots_drops_incomplete_entries() {
    let mut broken = entry(8, "2024-05-01 18:00:00");
    if let Json::Object(members) = &mut broken {
        members.retain(|(k, _)| k != "quantity");
    }
    let r = response(vec![entry(7, "2024-05-01 19:00:00"), broken, text("junk")]);
    let slots = format_slots(&r);
    assert_eq!(slots.len(), 1);
    assert_eq!(slots[0].id, "7");
}

#[test]
fn resolve_with_no_entries_is_empty() {
    let r = response(vec![]);
    let slots = resolve_slots(Ok(r), None).unwrap();
    assert!(slots.is_empty());
    assert!(format_slots(&Json::Null).is_empty());
    assert!(format_slots(&obj(vec![("results", obj(vec![]))])).is_empty());
}

#[test]
fn resolve_ranks_with_preferred_time() {
    let r = response(vec![
        entry(1, "2024-05-01 18:00:00"),
        entry(2, "2024-05-01 18:30:00"),
        entry(3, "2024-05-01 19:15:00"),
    ]);
    let slots = resolve_slots(Ok(r), Some("1900")).unwrap();
    let ids: Vec<String> = slots.iter().map(|s| s.id.clone()).collect();
    assert_eq!(ids, vec!["3", "2", "1"]);
}

#[test]
fn refused_availability_request_is_api_error() {
    let e = ResyAPIError::new("API request failed: 500".to_string());
    assert!(matches!(slots_from_response(Err(e)), Err(ResyClientError::ApiError(_))));
}

#[test]
fn race_candidates_checks_config_and_emptiness() {
    let mut incomplete = complete_config();
    incomplete.api_key = String::new();
    let r = race_candidates(&incomplete, Ok(response(vec![entry(1, "2024-05-01 18:00:00")])));
    assert!(matches!(r, Err(ResyClientError::InvalidInput(_))));

    let r = race_candidates(&complete_config(), Ok(response(vec![])));
    assert!(matches!(r, Err(ResyClientError::NotFound(_))));

    let mut cfg = complete_config();
    cfg.target_time = Some("1900".to_string());
    let r = race_candidates(&cfg, Ok(response(vec![entry(1, "2024-05-01 18:00:00"), entry(2, "2024-05-01 19:00:00")])))
        .unwrap();
    assert_eq!(r[0].id, "2");
}

#[test]
fn rank_by_start_orders_positions() {
    let starts = vec![Some((18, 0)), None, Some((18, 30)), Some((19, 15)), Some((18, 45))];
    assert_eq!(marksman::slots::rank_by_start(&starts, (19, 0)), vec![3, 4, 2, 0]);
    assert!(marksman::slots::rank_by_start(&vec![None, None], (19, 0)).is_empty());
    assert_eq!(marksman::slots::rank_by_start(&vec![Some((20, 0)), Some((18, 0))], (19, 0)), vec![0, 1]);
}
