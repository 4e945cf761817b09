use cloudwatcher::config::ConfigError;
use cloudwatcher::config::RefreshArg;
use cloudwatcher::config::WatchPlan;
use cloudwatcher::config::plan_watch;
use cloudwatcher::listing::list_lines;
use cloudwatcher::render::Color;
use cloudwatcher::render::Severity;
use cloudwatcher::render::group_color;
use cloudwatcher::render::severity_color;
use cloudwatcher::render::timestamp_color;
use cloudwatcher::text::str_contains;
use cloudwatcher::text::trim_str;
use cloudwatcher::text::u64_to_string;
use cloudwatcher::tick::lookback_start_ms;

#[test]
fn contains_finds_substrings() {
    assert!(str_contains("hello world", "lo wo"));
    assert!(str_contains("abc", ""));
    assert!(str_contains("abc", "abc"));
    assert!(!str_contains("abc", "abcd"));
    assert!(!str_contains("abc", "ABC"));
}

#[test]
fn trim_removes_edges_only() {
    assert_eq!(trim_str("  inner  text \t"), "inner  text");
    assert_eq!(trim_str("\u{a0}nbsp\u{3000}"), "nbsp");
    assert_eq!(trim_str("   "), "");
    assert_eq!(trim_str("plain"), "plain");
}

#[test]
fn decimal_rendering() {
    assert_eq!(u64_to_string(0), "0");
    assert_eq!(u64_to_string(7), "7");
    assert_eq!(u64_to_string(10), "10");
    assert_eq!(u64_to_string(90210), "90210");
    assert_eq!(u64_to_string(u64::MAX), "18446744073709551615");
}

#[test]
fn listing_prints_names_then_count() {
    let lines = list_lines(vec![Some("alpha".to_string()), None, Some("gamma".to_string())]);
    assert_eq!(lines, vec!["alpha", "", "gamma", "Found 3 log groups"]);
}

#[test]
fn listing_of_nothing() {
    let lines = list_lines(vec![]);
    assert_eq!(lines, vec!["Found 0 log groups"]);
}

fn parsed(text: &str) -> RefreshArg {
    match humantime::parse_duration(text) {
        Ok(d) => RefreshArg::Parsed(d.as_secs(), d.subsec_nanos()),
        Err(_) => RefreshArg::Invalid,
    }
}

#[test]
fn watch_plan_decisions() {
    let no_groups: Vec<String> = vec![];
    let some_groups = vec!["g".to_string()];
    assert_eq!(plan_watch(&no_groups, RefreshArg::Absent), Ok(WatchPlan::NoGroups));
    assert_eq!(plan_watch(&no_groups, parsed("3s")), Ok(WatchPlan::NoGroups));
    assert_eq!(plan_watch(&some_groups, RefreshArg::Absent), Ok(WatchPlan::Run(10, 0)));
    assert_eq!(plan_watch(&some_groups, parsed("3s")), Ok(WatchPlan::Run(3, 0)));
    assert_eq!(plan_watch(&some_groups, parsed("250ms")), Ok(WatchPlan::Run(0, 250_000_000)));
    assert_eq!(
        plan_watch(&some_groups, parsed("not a duration")),
        Err(ConfigError::BadRefresh)
    );
}

#[test]
fn lookback_is_ten_minutes_in_millis() {
    assert_eq!(lookback_start_ms(1_000_000), (1_000_000 - 600) * 1000);
    assert_eq!(lookback_start_ms(600), 0);
    assert_eq!(lookback_start_ms(0), -600_000);
}

#[test]
fn segment_colors() {
    assert_eq!(timestamp_color(), Color::Green);
    assert_eq!(group_color(), Color::Magenta);
    assert_eq!(severity_color(Severity::Info), Color::Blue);
    assert_eq!(severity_color(Severity::Error), Color::Red);
    assert_eq!(severity_color(Severity::Warn), Color::Yellow);
    assert_eq!(severity_color(Severity::Plain), Color::Plain);
}
