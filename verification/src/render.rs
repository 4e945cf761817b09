//! The render stage: classify each message by severity, format its
//! timestamp, and assemble the segments of one output line. The colors
//! the terminal applies to each segment are decided here; applying them
//! is the caller's concern.

use vstd::prelude::*;
use crate::event::LogEvent;
use crate::text::contains_seq;
use crate::text::str_contains;

verus! {

/// The style class of a message, decided by a case-sensitive substring
/// scan with first-match priority: `INFO`, then `ERROR`, then `WARN`,
/// else plain.
#[derive(Clone, Copy, PartialEq, Eq, Structural, Debug)]
pub enum Severity {
    Info,
    Error,
    Warn,
    Plain,
}

/// The color a segment is rendered with.
#[derive(Clone, Copy, PartialEq, Eq, Structural, Debug)]
pub enum Color {
    Green,
    Magenta,
    Blue,
    Red,
    Yellow,
    Plain,
}

/// First-match classification of a message body.
pub open spec fn classify_spec(m: Seq<char>) -> Severity {
    if contains_seq(m, "INFO"@) {
        Severity::Info
    } else if contains_seq(m, "ERROR"@) {
        Severity::Error
    } else if contains_seq(m, "WARN"@) {
        Severity::Warn
    } else {
        Severity::Plain
    }
}

/// Classify a message body by its severity markers.
pub fn classify(message: &str) -> (sev: Severity)
    ensures
        sev == classify_spec(message@),
{
    if str_contains(message, "INFO") {
        Severity::Info
    } else if str_contains(message, "ERROR") {
        Severity::Error
    } else if str_contains(message, "WARN") {
        Severity::Warn
    } else {
        Severity::Plain
    }
}

/// The color of a message of the given severity.
pub open spec fn severity_color_spec(sev: Severity) -> Color {
    match sev {
        Severity::Info => Color::Blue,
        Severity::Error => Color::Red,
        Severity::Warn => Color::Yellow,
        Severity::Plain => Color::Plain,
    }
}

pub fn severity_color(sev: Severity) -> (c: Color)
    ensures
        c == severity_color_spec(sev),
{
    match sev {
        Severity::Info => Color::Blue,
        Severity::Error => Color::Red,
        Severity::Warn => Color::Yellow,
        Severity::Plain => Color::Plain,
    }
}

/// The color of every rendered timestamp segment.
pub fn timestamp_color() -> (c: Color)
    ensures
        c == Color::Green,
{
    Color::Green
}

/// The color of every rendered group-name segment.
pub fn group_color() -> (c: Color)
    ensures
        c == Color::Magenta,
{
    Color::Magenta
}

/// The text that the fixed human-readable timestamp pattern (year down
/// to microseconds) yields for a given millisecond timestamp. It is a
/// function of the timestamp alone.
pub uninterp spec fn ts_text_of(ts_ms: int) -> Seq<char>;

/// Millisecond timestamps whose instant lies within the representable
/// year range (-9999 to 9999) of the formatter.
pub open spec fn ts_formattable(ts_ms: int) -> bool {
    -377_705_116_800_000 <= ts_ms <= 253_402_300_799_999
}

/// Relies on `time::OffsetDateTime::from_unix_timestamp_nanos`, which
/// succeeds exactly when the instant's floored Unix seconds lie in the
/// supported year range -9999 to 9999; on
/// `time::format_description::parse` of a fixed well-formed pattern;
/// and on `OffsetDateTime::format`, which renders date and time
/// components into a string and cannot fail for a value that carries
/// them all. The rendered text depends on the timestamp alone.
#[verifier::external_body]
fn format_ts_ms(ts_ms: i64) -> (r: Option<String>)
    ensures
        r is Some <==> ts_formattable(ts_ms as int),
        r is Some ==> r->Some_0@ == ts_text_of(ts_ms as int),
{
    let fmt = match time::format_description::parse(
        "[year]-[month]-[day] [hour]:[minute]:[second]:[subsecond digits:6]",
    ) {
        Ok(f) => f,
        Err(_) => return None,
    };
    let dt = match time::OffsetDateTime::from_unix_timestamp_nanos((ts_ms as i128) * 1_000_000) {
        Ok(d) => d,
        Err(_) => return None,
    };
    dt.format(&fmt).ok()
}

/// One fully rendered output line, split into its styled segments.
pub struct RenderedLine {
    pub timestamp_ms: i64,
    pub timestamp_text: String,
    pub group: String,
    pub severity: Severity,
    pub message: String,
}

/// The mathematical image of a rendered line.
pub ghost struct LineV {
    pub timestamp_ms: int,
    pub timestamp_text: Seq<char>,
    pub group: Seq<char>,
    pub severity: Severity,
    pub message: Seq<char>,
}

impl View for RenderedLine {
    type V = LineV;

    open spec fn view(&self) -> LineV {
        LineV {
            timestamp_ms: self.timestamp_ms as int,
            timestamp_text: self.timestamp_text@,
            group: self.group@,
            severity: self.severity,
            message: self.message@,
        }
    }
}

/// The line owed for one event.
pub open spec fn line_of(e: LogEvent) -> LineV {
    LineV {
        timestamp_ms: e.timestamp as int,
        timestamp_text: ts_text_of(e.timestamp as int),
        group: e.group@,
        severity: classify_spec(e.message@),
        message: e.message@,
    }
}

/// The lines owed for a sequence of events, in order. An event whose
/// timestamp cannot be formatted is skipped rather than aborting the
/// whole tick.
pub open spec fn render_spec(s: Seq<LogEvent>) -> Seq<LineV>
    decreases s.len(),
{
    if s.len() == 0 {
        Seq::empty()
    } else if ts_formattable(s.last().timestamp as int) {
        render_spec(s.drop_last()).push(line_of(s.last()))
    } else {
        render_spec(s.drop_last())
    }
}

/// Non-decreasing by underlying timestamp.
pub open spec fn lines_sorted(ls: Seq<LineV>) -> bool {
    forall|i: int, j: int| 0 <= i < j < ls.len() ==> ls[i].timestamp_ms <= ls[j].timestamp_ms
}

proof fn lemma_render_spec_ts_bound(s: Seq<LogEvent>, b: int)
    requires
        forall|k: int| 0 <= k < s.len() ==> s[k].timestamp <= b,
    ensures
        forall|i: int| 0 <= i < render_spec(s).len() ==> render_spec(s)[i].timestamp_ms <= b,
    decreases s.len(),
{
    if s.len() > 0 {
        assert(forall|k: int| 0 <= k < s.drop_last().len() ==> s.drop_last()[k].timestamp <= b);
        lemma_render_spec_ts_bound(s.drop_last(), b);
        assert(s.last().timestamp <= b);
    }
}

/// Rendering preserves the time ordering of its input.
pub proof fn lemma_render_spec_sorted(s: Seq<LogEvent>)
    requires
        crate::merge::sorted_by_ts(s),
    ensures
        lines_sorted(render_spec(s)),
    decreases s.len(),
{
    if s.len() > 0 {
        assert(crate::merge::sorted_by_ts(s.drop_last()));
        lemma_render_spec_sorted(s.drop_last());
        assert(forall|k: int| 0 <= k < s.drop_last().len() ==> s.drop_last()[k].timestamp
            <= s.last().timestamp);
        lemma_render_spec_ts_bound(s.drop_last(), s.last().timestamp as int);
    }
}

/// Render each event of an ordered batch into its output line. Events
/// whose timestamp lies outside the formatter's range are skipped.
pub fn render_events(events: Vec<LogEvent>) -> (out: Vec<RenderedLine>)
    ensures
        out@.map_values(|l: RenderedLine| l@) == render_spec(events@),
{
    let ghost orig = events@;
    let mut events = events;
    let mut out: Vec<RenderedLine> = Vec::new();
    let ghost mut processed = Seq::<LogEvent>::empty();
    proof {
        assert(processed + events@ =~= orig);
        assert(out@.map_values(|l: RenderedLine| l@) =~= render_spec(processed));
    }
    while events.len() > 0
        invariant
            processed + events@ == orig,
            out@.map_values(|l: RenderedLine| l@) == render_spec(processed),
        decreases events@.len(),
    {
        let ghost pre_events = events@;
        let ghost pre_out = out@;
        let e = events.remove(0);
        proof {
            assert(pre_events[0] == e);
            assert(pre_events.drop_first() =~= events@);
        }
        match format_ts_ms(e.timestamp) {
            Option::Some(txt) => {
                let sev = classify(e.message.as_str());
                let line = RenderedLine {
                    timestamp_ms: e.timestamp,
                    timestamp_text: txt,
                    group: e.group,
                    severity: sev,
                    message: e.message,
                };
                proof {
                    assert(line@ == line_of(e));
                }
                out.push(line);
                proof {
                    let next = processed.push(e);
                    assert(next.drop_last() =~= processed);
                    assert(next.last() == e);
                    assert(out@.map_values(|l: RenderedLine| l@) =~= pre_out.map_values(
                        |l: RenderedLine| l@,
                    ).push(line@));
                    assert(render_spec(next) == render_spec(processed).push(line_of(e)));
                    processed = next;
                    assert(processed + events@ =~= orig);
                }
            },
            Option::None => {
                proof {
                    let next = processed.push(e);
                    assert(next.drop_last() =~= processed);
                    assert(next.last() == e);
                    assert(render_spec(next) == render_spec(processed));
                    processed = next;
                    assert(processed + events@ =~= orig);
                }
            },
        }
    }
    proof {
        assert(processed =~= orig);
    }
    out
}

} // verus!
