//! One scheduler tick, from raw per-group query results to rendered
//! lines: swallow per-group failures, flatten, deduplicate against the
//! process-lifetime id set, merge into time order, and render.

use vstd::prelude::*;
use crate::event::LogEvent;
use crate::event::QueryError;
use crate::dedup::SeenEventIds;
use crate::dedup::dedup_filter;
use crate::dedup::ids_of;
use crate::merge::merge_by_ts;
use crate::merge::sort_events;
use crate::render::LineV;
use crate::render::RenderedLine;
use crate::render::lines_sorted;
use crate::render::render_events;
use crate::render::render_spec;

verus! {

/// How far before "now" each tick's query window starts. The window is
/// deliberately wider than the refresh interval, so consecutive ticks
/// overlap and re-fetched events must be filtered by the dedup stage.
pub const LOOKBACK_SECS: i64 = 600;

/// The events one group contributes to a tick: its full result list on
/// success, nothing on failure.
pub open spec fn ok_events(r: Result<Vec<LogEvent>, QueryError>) -> Seq<LogEvent> {
    match r {
        Result::Ok(v) => v@,
        Result::Err(_) => Seq::empty(),
    }
}

/// All events contributed by a tick's per-group results, in arrival
/// order of the groups, failed groups contributing nothing.
pub open spec fn flatten_ok(rs: Seq<Result<Vec<LogEvent>, QueryError>>) -> Seq<LogEvent>
    decreases rs.len(),
{
    if rs.len() == 0 {
        Seq::empty()
    } else {
        flatten_ok(rs.drop_last()) + ok_events(rs.last())
    }
}

/// Flatten a tick's per-group results, swallowing failures: a failed
/// group yields zero events this tick and never aborts the tick.
pub fn collect_ok(results: Vec<Result<Vec<LogEvent>, QueryError>>) -> (all: Vec<LogEvent>)
    ensures
        all@ == flatten_ok(results@),
{
    let ghost orig = results@;
    let mut results = results;
    let mut all: Vec<LogEvent> = Vec::new();
    let ghost mut processed = Seq::<Result<Vec<LogEvent>, QueryError>>::empty();
    proof {
        assert(processed + results@ =~= orig);
        assert(all@ =~= flatten_ok(processed));
    }
    while results.len() > 0
        invariant
            processed + results@ == orig,
            all@ == flatten_ok(processed),
        decreases results@.len(),
    {
        let ghost pre_results = results@;
        let r = results.remove(0);
        let ghost r_snap = r;
        proof {
            assert(pre_results[0] == r);
            assert(pre_results.drop_first() =~= results@);
        }
        match r {
            Result::Ok(mut v) => {
                let ghost contributed = v@;
                all.append(&mut v);
                proof {
                    let next = processed.push(r_snap);
                    assert(ok_events(next.last()) == contributed);
                    assert(next.drop_last() =~= processed);
                    assert(flatten_ok(next) == flatten_ok(processed) + ok_events(next.last()));
                    processed = next;
                    assert(processed + results@ =~= orig);
                }
            },
            Result::Err(err) => {
                proof {
                    let next = processed.push(r_snap);
                    assert(next.drop_last() =~= processed);
                    assert(ok_events(next.last()) =~= Seq::<LogEvent>::empty());
                    assert(flatten_ok(next) =~= flatten_ok(processed));
                    processed = next;
                    assert(processed + results@ =~= orig);
                }
            },
        }
    }
    proof {
        assert(processed =~= orig);
    }
    all
}

/// The lines one tick owes, as a function of the per-group results and
/// the ids already rendered before the tick.
pub open spec fn tick_lines(
    results: Seq<Result<Vec<LogEvent>, QueryError>>,
    seen: Set<Seq<char>>,
) -> Seq<LineV> {
    render_spec(merge_by_ts(dedup_filter(flatten_ok(results), seen)))
}

/// Run the dedup/merge/render pipeline of one tick over the fan-out's
/// per-group results. Every id fetched this tick is recorded; exactly
/// the events not seen before are kept, time-ordered, and rendered.
pub fn process_tick(
    results: Vec<Result<Vec<LogEvent>, QueryError>>,
    seen: &mut SeenEventIds,
) -> (out: Vec<RenderedLine>)
    ensures
        out@.map_values(|l: RenderedLine| l@) == tick_lines(results@, old(seen)@),
        final(seen)@ == old(seen)@.union(ids_of(flatten_ok(results@))),
        lines_sorted(out@.map_values(|l: RenderedLine| l@)),
{
    let all = collect_ok(results);
    let fresh = crate::dedup::dedup_batch(all, seen);
    let ordered = sort_events(fresh);
    proof {
        crate::render::lemma_render_spec_sorted(ordered@);
    }
    render_events(ordered)
}

/// The lower bound, in service epoch milliseconds, of the query window
/// for a tick starting at the given Unix-seconds instant.
pub fn lookback_start_ms(now_unix_sec: i64) -> (r: i64)
    requires
        -9_000_000_000_000 <= now_unix_sec <= 9_000_000_000_000,
    ensures
        r == (now_unix_sec - LOOKBACK_SECS) * 1000,
{
    (now_unix_sec - LOOKBACK_SECS) * 1000
}

} // verus!
