use cloudwatcher::dedup::SeenEventIds;
use cloudwatcher::event::LogEvent;
use cloudwatcher::event::QueryError;
use cloudwatcher::event::normalize_event;
use cloudwatcher::merge::sort_events;
use cloudwatcher::render::RenderedLine;
use cloudwatcher::render::Severity;
use cloudwatcher::render::classify;
use cloudwatcher::tick::process_tick;

fn ev(id: &str, group: &str, ts: i64, msg: &str) -> LogEvent {
    LogEvent {
        event_id: id.to_string(),
        group: group.to_string(),
        timestamp: ts,
        message: msg.to_string(),
    }
}

fn tick(
    seen: &mut SeenEventIds,
    groups: Vec<Result<Vec<LogEvent>, QueryError>>,
) -> Vec<RenderedLine> {
    process_tick(groups, seen)
}

#[test]
fn scenario_two_ticks_two_groups() {
    let mut seen = SeenEventIds::new();

    // Tick 1: svc-a returns id=1 at t=100, svc-b returns id=2 at t=50.
    let out1 = tick(
        &mut seen,
        vec![
            Ok(vec![ev("1", "svc-a", 100, "INFO ok")]),
            Ok(vec![ev("2", "svc-b", 50, "ERROR bad")]),
        ],
    );
    assert_eq!(out1.len(), 2);
    assert_eq!(out1[0].group, "svc-b");
    assert_eq!(out1[0].timestamp_ms, 50);
    assert_eq!(out1[0].severity, Severity::Error);
    assert_eq!(out1[1].group, "svc-a");
    assert_eq!(out1[1].timestamp_ms, 100);
    assert_eq!(out1[1].severity, Severity::Info);

    // Tick 2: svc-a re-returns id=1 (overlapping window) plus new id=3.
    let out2 = tick(
        &mut seen,
        vec![
            Ok(vec![ev("1", "svc-a", 100, "INFO ok"), ev("3", "svc-a", 150, "WARN slow")]),
            Ok(vec![]),
        ],
    );
    assert_eq!(out2.len(), 1);
    assert_eq!(out2[0].timestamp_ms, 150);
    assert_eq!(out2[0].severity, Severity::Warn);
    assert_eq!(out2[0].message, "WARN slow");
}

#[test]
fn dedup_across_many_ticks() {
    let mut seen = SeenEventIds::new();
    let mut total = 0;
    for _ in 0..5 {
        let out = tick(&mut seen, vec![Ok(vec![ev("same-id", "g", 10, "hello")])]);
        total += out.len();
    }
    assert_eq!(total, 1);
}

#[test]
fn dedup_within_one_tick_across_groups() {
    let mut seen = SeenEventIds::new();
    let out = tick(
        &mut seen,
        vec![
            Ok(vec![ev("x", "g1", 10, "first")]),
            Ok(vec![ev("x", "g2", 10, "second")]),
        ],
    );
    assert_eq!(out.len(), 1);
    assert_eq!(out[0].group, "g1");
}

#[test]
fn failed_group_is_isolated() {
    let mut seen = SeenEventIds::new();
    let out = tick(
        &mut seen,
        vec![
            Ok(vec![ev("a", "g1", 30, "one")]),
            Err(QueryError { message: "throttled".to_string() }),
            Ok(vec![ev("b", "g3", 20, "two")]),
        ],
    );
    assert_eq!(out.len(), 2);
    assert_eq!(out[0].group, "g3");
    assert_eq!(out[1].group, "g1");
}

#[test]
fn empty_tick_renders_nothing() {
    let mut seen = SeenEventIds::new();
    let out = tick(&mut seen, vec![Ok(vec![]), Ok(vec![]), Err(QueryError {
        message: "down".to_string(),
    })]);
    assert!(out.is_empty());
    // And the set of seen ids was untouched: a later tick still renders.
    let out2 = tick(&mut seen, vec![Ok(vec![ev("n", "g", 5, "later")])]);
    assert_eq!(out2.len(), 1);
}

#[test]
fn merge_is_globally_ordered() {
    let mut seen = SeenEventIds::new();
    let out = tick(
        &mut seen,
        vec![
            Ok(vec![ev("a", "g1", 300, "m"), ev("b", "g1", 100, "m")]),
            Ok(vec![ev("c", "g2", 200, "m"), ev("d", "g2", 400, "m")]),
        ],
    );
    let times: Vec<i64> = out.iter().map(|l| l.timestamp_ms).collect();
    assert_eq!(times, vec![100, 200, 300, 400]);
}

#[test]
fn sort_is_stable_for_equal_timestamps() {
    let sorted = sort_events(vec![
        ev("first", "g", 7, "m"),
        ev("second", "g", 7, "m"),
        ev("earlier", "g", 3, "m"),
        ev("third", "g", 7, "m"),
    ]);
    let ids: Vec<&str> = sorted.iter().map(|e| e.event_id.as_str()).collect();
    assert_eq!(ids, vec!["earlier", "first", "second", "third"]);
}

#[test]
fn timestamp_is_formatted_with_microseconds() {
    let mut seen = SeenEventIds::new();
    let out = tick(&mut seen, vec![Ok(vec![ev("t", "g", 100, "m")])]);
    assert_eq!(out[0].timestamp_text, "1970-01-01 00:00:00:100000");
}

#[test]
fn unformattable_timestamp_is_skipped_not_fatal() {
    let mut seen = SeenEventIds::new();
    let out = tick(
        &mut seen,
        vec![Ok(vec![ev("big", "g", i64::MAX, "m"), ev("ok", "g", 0, "m")])],
    );
    assert_eq!(out.len(), 1);
    assert_eq!(out[0].timestamp_ms, 0);
}

#[test]
fn formattable_range_boundaries() {
    let mut seen = SeenEventIds::new();
    let out = tick(
        &mut seen,
        vec![Ok(vec![
            ev("max", "g", 253_402_300_799_999, "m"),
            ev("past-max", "g", 253_402_300_800_000, "m"),
            ev("min", "g", -377_705_116_800_000, "m"),
            ev("past-min", "g", -377_705_116_800_001, "m"),
        ])],
    );
    assert_eq!(out.len(), 2);
    assert_eq!(out[0].timestamp_text, "-9999-01-01 00:00:00:000000");
    assert_eq!(out[1].timestamp_text, "9999-12-31 23:59:59:999000");
}

#[test]
fn classify_precedence_info_beats_error() {
    assert_eq!(classify("INFO then ERROR occurred"), Severity::Info);
}

#[test]
fn classify_each_marker() {
    assert_eq!(classify("an INFO note"), Severity::Info);
    assert_eq!(classify("an ERROR note"), Severity::Error);
    assert_eq!(classify("a WARN note"), Severity::Warn);
    assert_eq!(classify("nothing special"), Severity::Plain);
    assert_eq!(classify("ERROR before WARN"), Severity::Error);
    // Case-sensitive, substring (not whole-word) matching.
    assert_eq!(classify("info lowercase"), Severity::Plain);
    assert_eq!(classify("REINFORCED"), Severity::Info);
}

#[test]
fn normalize_defaults_missing_fields() {
    let e = normalize_event("g", None, None, None);
    assert_eq!(e.event_id, "");
    assert_eq!(e.group, "g");
    assert_eq!(e.timestamp, 0);
    assert_eq!(e.message, "");
}

#[test]
fn normalize_trims_message() {
    let e = normalize_event(
        "g",
        Some("id-1".to_string()),
        Some(42),
        Some("  spaced out \t\n".to_string()),
    );
    assert_eq!(e.event_id, "id-1");
    assert_eq!(e.timestamp, 42);
    assert_eq!(e.message, "spaced out");
}
