use spot::relay::{observe_result, relay_events, RelayEvent, ResultMsg};
use spot::sse_event_type::SseEventType;
use spot::text::site_of_origin;

fn s(v: &str) -> String {
    v.to_string()
}

fn event(name: &str, data: &str) -> RelayEvent {
    RelayEvent { name: s(name), data: data.as_bytes().to_vec() }
}

#[test]
fn relay_counts_two_successes_and_forwards_all_three_events() {
    // three messages: two parse as succeeded from distinct origins, one
    // does not parse at all
    let events = vec![
        event("new_result", "{\"from\":\"focus.berlin.broker\",\"status\":\"succeeded\"}"),
        event("new_result", "this is not json"),
        event("new_result", "{\"from\":\"focus.munich.broker\",\"status\":\"succeeded\"}"),
    ];
    let parsed = vec![
        Some(ResultMsg { from: s("focus.berlin.broker"), succeeded: true }),
        None,
        Some(ResultMsg { from: s("focus.munich.broker"), succeeded: true }),
    ];
    let expected_events = vec![
        event("new_result", "{\"from\":\"focus.berlin.broker\",\"status\":\"succeeded\"}"),
        event("new_result", "this is not json"),
        event("new_result", "{\"from\":\"focus.munich.broker\",\"status\":\"succeeded\"}"),
    ];
    let (forwarded, sites) = relay_events(events, &parsed);
    assert_eq!(forwarded, expected_events);
    assert_eq!(sites, vec![s("berlin"), s("munich")]);
}

#[test]
fn non_success_statuses_are_not_counted() {
    let parsed = Some(ResultMsg { from: s("focus.berlin.broker"), succeeded: false });
    assert_eq!(observe_result(&parsed), None);
}

#[test]
fn unparsed_payloads_are_not_counted() {
    assert_eq!(observe_result(&None), None);
}

#[test]
fn counted_site_is_the_second_dot_segment() {
    let parsed = Some(ResultMsg { from: s("focus.berlin.broker.example"), succeeded: true });
    assert_eq!(observe_result(&parsed), Some(s("berlin")));
}

#[test]
fn origin_without_dots_is_not_counted() {
    let parsed = Some(ResultMsg { from: s("nodots"), succeeded: true });
    assert_eq!(observe_result(&parsed), None);
}

#[test]
fn site_extraction_handles_short_identities() {
    assert_eq!(site_of_origin("app.site.broker"), Some(s("site")));
    assert_eq!(site_of_origin("app.site"), Some(s("site")));
    assert_eq!(site_of_origin("app."), Some(s("")));
    assert_eq!(site_of_origin("app"), None);
}

#[test]
fn sse_event_names_round_trip() {
    let names = [
        "new_task",
        "new_result",
        "updated_task",
        "updated_result",
        "wait_expired",
        "deleted_task",
        "error",
    ];
    for name in names {
        let t = SseEventType::from_str(name);
        assert_eq!(t.as_ref(), name);
    }
    let undefined = SseEventType::from_str("message");
    assert_eq!(undefined.as_ref(), "");
    let unknown = SseEventType::from_str("something_else");
    assert_eq!(unknown.as_ref(), "something_else");
    match unknown {
        SseEventType::Unknown(ref e) => assert_eq!(e, "something_else"),
        ref other => panic!("expected the unknown variant, got {:?}", other),
    }
}
