use eplayer::error::CaptionError;
use eplayer::payload::{events_of_json, parse_payload, units_of_events, RawEvent};
use eplayer::subtitle::AtomicSubtitleUnit;

fn unit(id: u64, text: &str, start_ms: u64, end_ms: u64) -> AtomicSubtitleUnit {
    AtomicSubtitleUnit { id, text: text.to_string(), start_ms, end_ms }
}

fn event(start_ms: Option<u64>, duration_ms: Option<u64>, segments: &[&str]) -> RawEvent {
    RawEvent { start_ms, duration_ms, segments: segments.iter().map(|s| s.to_string()).collect() }
}

#[test]
fn event_without_duration_is_dropped() {
    let payload = r#"{"events":[{"tStartMs":1000,"segs":[{"utf8":"lost"}]}]}"#;
    assert_eq!(parse_payload(payload), Ok(Vec::new()));
    assert_eq!(units_of_events(&vec![event(Some(1000), None, &["lost"])]), Ok(Vec::new()));
}

#[test]
fn event_without_start_is_dropped() {
    let payload = r#"{"events":[{"dDurationMs":1000,"segs":[{"utf8":"lost"}]}]}"#;
    assert_eq!(parse_payload(payload), Ok(Vec::new()));
    assert_eq!(units_of_events(&vec![event(None, Some(1000), &["lost"])]), Ok(Vec::new()));
}

#[test]
fn event_without_segments_is_dropped() {
    let payload = r#"{"events":[{"tStartMs":0,"dDurationMs":5},{"tStartMs":0,"dDurationMs":5,"segs":[]}]}"#;
    assert_eq!(parse_payload(payload), Ok(Vec::new()));
    assert_eq!(units_of_events(&vec![event(Some(0), Some(5), &[])]), Ok(Vec::new()));
}

#[test]
fn one_unit_for_each_segment() {
    let payload = r#"{"events":[
        {"tStartMs":1500,"dDurationMs":2500,"segs":[{"utf8":"Hello"},{"utf8":" world\n"}]},
        {"tStartMs":9000},
        {"tStartMs":4000,"dDurationMs":1000,"segs":[{"utf8":"again"}]}
    ]}"#;
    assert_eq!(
        parse_payload(payload),
        Ok(vec![
            unit(1, "Hello", 1500, 4000),
            unit(1, " world\n", 1500, 4000),
            unit(3, "again", 4000, 5000),
        ])
    );
}

#[test]
fn units_of_plain_events() {
    let events = vec![
        event(Some(10), Some(5), &["a", "b"]),
        event(None, None, &["skipped"]),
        event(Some(0), Some(0), &[""]),
    ];
    assert_eq!(
        units_of_events(&events),
        Ok(vec![unit(1, "a", 10, 15), unit(1, "b", 10, 15), unit(3, "", 0, 0)])
    );
}

#[test]
fn text_is_kept_untrimmed() {
    let payload = r#"{"events":[{"tStartMs":0,"dDurationMs":1,"segs":[{"utf8":"  spaced \n "}]}]}"#;
    assert_eq!(parse_payload(payload), Ok(vec![unit(1, "  spaced \n ", 0, 1)]));
}

#[test]
fn null_counts_as_absent() {
    let payload = r#"{"events":[
        {"tStartMs":null,"dDurationMs":5,"segs":[{"utf8":"a"}]},
        {"tStartMs":1,"dDurationMs":5,"segs":null},
        {"tStartMs":1,"dDurationMs":5,"segs":[{"utf8":"b"}]}
    ]}"#;
    assert_eq!(parse_payload(payload), Ok(vec![unit(3, "b", 1, 6)]));
}

#[test]
fn unknown_members_are_ignored() {
    let payload = r#"{"wireMagic":"pb3","events":[{"tStartMs":1,"dDurationMs":2,"wWinId":1,"segs":[{"utf8":"a","acAsrConf":0}]}]}"#;
    assert_eq!(parse_payload(payload), Ok(vec![unit(1, "a", 1, 3)]));
}

#[test]
fn empty_payload_has_no_units() {
    assert_eq!(parse_payload(r#"{"events":[]}"#), Ok(Vec::new()));
    assert_eq!(units_of_events(&Vec::new()), Ok(Vec::new()));
}

#[test]
fn text_that_is_not_json_is_malformed() {
    assert_eq!(parse_payload(""), Err(CaptionError::MalformedPayload));
    assert_eq!(parse_payload("<transcript/>"), Err(CaptionError::MalformedPayload));
    assert_eq!(parse_payload(r#"{"events":["#), Err(CaptionError::MalformedPayload));
}

#[test]
fn wrong_shape_is_malformed() {
    let malformed = [
        "[]",
        "null",
        "{}",
        r#"{"events":null}"#,
        r#"{"events":{}}"#,
        r#"{"events":[1]}"#,
        r#"{"events":[[]]}"#,
        r#"{"events":[{"tStartMs":"soon"}]}"#,
        r#"{"events":[{"dDurationMs":true}]}"#,
        r#"{"events":[{"segs":{}}]}"#,
        r#"{"events":[{"segs":["text"]}]}"#,
        r#"{"events":[{"segs":[{}]}]}"#,
        r#"{"events":[{"segs":[{"utf8":1}]}]}"#,
        r#"{"events":[{"segs":[{"utf8":null}]}]}"#,
    ];
    for payload in malformed {
        assert_eq!(parse_payload(payload), Err(CaptionError::MalformedPayload), "{}", payload);
    }
}

#[test]
fn times_must_be_whole_milliseconds() {
    let malformed = [
        r#"{"events":[{"tStartMs":1.5,"dDurationMs":1}]}"#,
        r#"{"events":[{"tStartMs":-1,"dDurationMs":1}]}"#,
        r#"{"events":[{"tStartMs":1,"dDurationMs":1e3}]}"#,
        r#"{"events":[{"tStartMs":18446744073709551616,"dDurationMs":1}]}"#,
    ];
    for payload in malformed {
        assert_eq!(parse_payload(payload), Err(CaptionError::MalformedPayload), "{}", payload);
    }
}

#[test]
fn end_beyond_the_largest_time_is_malformed() {
    let payload = r#"{"events":[{"tStartMs":18446744073709551615,"dDurationMs":1}]}"#;
    assert_eq!(parse_payload(payload), Err(CaptionError::MalformedPayload));
    assert_eq!(
        units_of_events(&vec![event(Some(u64::MAX), Some(1), &[])]),
        Err(CaptionError::MalformedPayload)
    );
    assert_eq!(
        units_of_events(&vec![event(Some(u64::MAX - 1), Some(1), &["edge"])]),
        Ok(vec![unit(1, "edge", u64::MAX - 1, u64::MAX)])
    );
}

#[test]
fn events_are_read_as_they_stand() {
    let root = serde_json::from_str(r#"{"events":[{"tStartMs":7,"segs":[{"utf8":"a"}]},{}]}"#).unwrap();
    assert_eq!(
        events_of_json(&root),
        Ok(vec![event(Some(7), None, &["a"]), event(None, None, &[])])
    );
    assert_eq!(units_of_events(&events_of_json(&root).unwrap()), Ok(Vec::new()));
}
