//! The guarantees the watcher owes across whole runs, stated over the
//! specification functions of the pipeline and proved once and for
//! all: deduplication across overlapping ticks, isolation of failed
//! groups, stability of empty ticks, and classification precedence.

use vstd::prelude::*;
use crate::event::LogEvent;
use crate::event::QueryError;
use crate::dedup::dedup_filter;
use crate::dedup::ids_of;
use crate::render::LineV;
use crate::render::Severity;
use crate::render::classify_spec;
use crate::text::contains_seq;
use crate::tick::flatten_ok;
use crate::tick::ok_events;
use crate::tick::tick_lines;

verus! {

/// Nothing a tick keeps was seen before the tick.
proof fn lemma_dedup_filter_fresh(s: Seq<LogEvent>, seen: Set<Seq<char>>, k: int)
    requires
        0 <= k < dedup_filter(s, seen).len(),
    ensures
        !seen.contains(dedup_filter(s, seen)[k].event_id@),
    decreases s.len(),
{
    let r = dedup_filter(s, seen);
    if seen.contains(s[0].event_id@) {
        let t = dedup_filter(s.drop_first(), seen);
        assert(r[k] == t[k]);
        lemma_dedup_filter_fresh(s.drop_first(), seen, k);
    } else {
        let seen1 = seen.insert(s[0].event_id@);
        let t = dedup_filter(s.drop_first(), seen1);
        if k == 0 {
            assert(r[0] == s[0]);
        } else {
            assert(r[k] == t[k - 1]);
            lemma_dedup_filter_fresh(s.drop_first(), seen1, k - 1);
            assert(!seen1.contains(t[k - 1].event_id@));
        }
    }
}

/// Everything a tick keeps came from the tick's own batch.
proof fn lemma_dedup_filter_from_batch(s: Seq<LogEvent>, seen: Set<Seq<char>>, k: int)
    requires
        0 <= k < dedup_filter(s, seen).len(),
    ensures
        ids_of(s).contains(dedup_filter(s, seen)[k].event_id@),
    decreases s.len(),
{
    let r = dedup_filter(s, seen);
    let rest = s.drop_first();
    if seen.contains(s[0].event_id@) {
        let t = dedup_filter(rest, seen);
        assert(r[k] == t[k]);
        lemma_dedup_filter_from_batch(rest, seen, k);
        let q = choose|q: int| 0 <= q < rest.len() && rest[q].event_id@ == t[k].event_id@;
        assert(s[q + 1] == rest[q]);
        assert(s[q + 1].event_id@ == r[k].event_id@);
    } else {
        let seen1 = seen.insert(s[0].event_id@);
        let t = dedup_filter(rest, seen1);
        if k == 0 {
            assert(r[0] == s[0]);
            assert(s[0].event_id@ == r[0].event_id@);
        } else {
            assert(r[k] == t[k - 1]);
            lemma_dedup_filter_from_batch(rest, seen1, k - 1);
            let q = choose|q: int| 0 <= q < rest.len() && rest[q].event_id@ == t[k - 1].event_id@;
            assert(s[q + 1] == rest[q]);
            assert(s[q + 1].event_id@ == r[k].event_id@);
        }
    }
}

/// Within one tick, no identity is kept twice, even when several
/// groups return the same event in the same batch.
pub proof fn lemma_tick_emits_distinct_ids(s: Seq<LogEvent>, seen: Set<Seq<char>>)
    ensures
        forall|i: int, j: int|
            0 <= i < j < dedup_filter(s, seen).len() ==> dedup_filter(s, seen)[i].event_id@
                != dedup_filter(s, seen)[j].event_id@,
    decreases s.len(),
{
    if s.len() > 0 {
        let r = dedup_filter(s, seen);
        if seen.contains(s[0].event_id@) {
            lemma_tick_emits_distinct_ids(s.drop_first(), seen);
            let t = dedup_filter(s.drop_first(), seen);
            assert forall|i: int, j: int| 0 <= i < j < r.len() implies r[i].event_id@
                != r[j].event_id@ by {
                assert(r[i] == t[i] && r[j] == t[j]);
            }
        } else {
            let seen1 = seen.insert(s[0].event_id@);
            let t = dedup_filter(s.drop_first(), seen1);
            lemma_tick_emits_distinct_ids(s.drop_first(), seen1);
            assert forall|i: int, j: int| 0 <= i < j < r.len() implies r[i].event_id@
                != r[j].event_id@ by {
                if i == 0 {
                    assert(r[0] == s[0]);
                    assert(r[j] == t[j - 1]);
                    lemma_dedup_filter_fresh(s.drop_first(), seen1, j - 1);
                    assert(!seen1.contains(t[j - 1].event_id@));
                    assert(seen1.contains(s[0].event_id@));
                } else {
                    assert(r[i] == t[i - 1] && r[j] == t[j - 1]);
                    assert(t[i - 1].event_id@ != t[j - 1].event_id@);
                }
            }
        }
    }
}

/// The ids already recorded once the given batches have been processed
/// in order, starting from `seen0`: every id each tick fetched is
/// recorded, whether or not it was new.
pub open spec fn seen_after(batches: Seq<Seq<LogEvent>>, seen0: Set<Seq<char>>) -> Set<Seq<char>>
    decreases batches.len(),
{
    if batches.len() == 0 {
        seen0
    } else {
        seen_after(batches.drop_last(), seen0).union(ids_of(batches.last()))
    }
}

/// The events tick `k` keeps, in a run that processes `batches` in
/// order starting from `seen0`.
pub open spec fn emitted(batches: Seq<Seq<LogEvent>>, seen0: Set<Seq<char>>, k: int) -> Seq<
    LogEvent,
> {
    dedup_filter(batches[k], seen_after(batches.take(k), seen0))
}

proof fn lemma_seen_after_monotonic(batches: Seq<Seq<LogEvent>>, seen0: Set<Seq<char>>, i: int, j: int)
    requires
        0 <= i <= j <= batches.len(),
    ensures
        seen_after(batches.take(i), seen0).subset_of(seen_after(batches.take(j), seen0)),
    decreases j - i,
{
    if i < j {
        lemma_seen_after_monotonic(batches, seen0, i, j - 1);
        let tj = batches.take(j);
        assert(tj.drop_last() =~= batches.take(j - 1));
        assert(seen_after(tj, seen0) == seen_after(batches.take(j - 1), seen0).union(
            ids_of(tj.last()),
        ));
    }
}

proof fn lemma_batch_ids_recorded(batches: Seq<Seq<LogEvent>>, seen0: Set<Seq<char>>, i: int, j: int)
    requires
        0 <= i < j <= batches.len(),
    ensures
        ids_of(batches[i]).subset_of(seen_after(batches.take(j), seen0)),
{
    let ti = batches.take(i + 1);
    assert(ti.drop_last() =~= batches.take(i));
    assert(ti.last() == batches[i]);
    assert(seen_after(ti, seen0) == seen_after(batches.take(i), seen0).union(ids_of(batches[i])));
    lemma_seen_after_monotonic(batches, seen0, i + 1, j);
}

/// Dedup idempotence: over any run, however many overlapping ticks
/// re-fetch an event, an identity kept by one tick is never kept again
/// by any later tick.
pub proof fn lemma_dedup_idempotence(
    batches: Seq<Seq<LogEvent>>,
    seen0: Set<Seq<char>>,
    i: int,
    j: int,
)
    requires
        0 <= i < j < batches.len(),
    ensures
        forall|a: int, b: int|
            0 <= a < emitted(batches, seen0, i).len() && 0 <= b < emitted(
                batches,
                seen0,
                j,
            ).len() ==> emitted(batches, seen0, i)[a].event_id@ != emitted(
                batches,
                seen0,
                j,
            )[b].event_id@,
{
    let si = seen_after(batches.take(i), seen0);
    let sj = seen_after(batches.take(j), seen0);
    let ei = emitted(batches, seen0, i);
    let ej = emitted(batches, seen0, j);
    assert forall|a: int, b: int| 0 <= a < ei.len() && 0 <= b < ej.len() implies ei[a].event_id@
        != ej[b].event_id@ by {
        lemma_dedup_filter_from_batch(batches[i], si, a);
        lemma_dedup_filter_fresh(batches[j], sj, b);
        lemma_batch_ids_recorded(batches, seen0, i, j);
        assert(ei[a] == dedup_filter(batches[i], si)[a]);
        assert(ids_of(batches[i]).contains(dedup_filter(batches[i], si)[a].event_id@));
        assert(sj.contains(ei[a].event_id@));
        assert(ej[b] == dedup_filter(batches[j], sj)[b]);
        assert(!sj.contains(dedup_filter(batches[j], sj)[b].event_id@));
    }
}

/// Fan-out isolation: when one group's query fails, the tick's events
/// and rendered lines are exactly those of the same tick without that
/// group. The other groups lose nothing.
pub proof fn lemma_failed_group_isolated(
    results: Seq<Result<Vec<LogEvent>, QueryError>>,
    j: int,
    seen: Set<Seq<char>>,
)
    requires
        0 <= j < results.len(),
        results[j] is Err,
    ensures
        flatten_ok(results) == flatten_ok(results.remove(j)),
        tick_lines(results, seen) == tick_lines(results.remove(j), seen),
    decreases results.len(),
{
    let pruned = results.remove(j);
    if j == results.len() - 1 {
        assert(pruned =~= results.drop_last());
        assert(ok_events(results.last()) =~= Seq::<LogEvent>::empty());
        assert(flatten_ok(results) =~= flatten_ok(pruned));
    } else {
        lemma_failed_group_isolated(results.drop_last(), j, seen);
        assert(pruned.drop_last() =~= results.drop_last().remove(j));
        assert(pruned.last() == results.last());
        assert(flatten_ok(results) == flatten_ok(results.drop_last()) + ok_events(results.last()));
        assert(flatten_ok(pruned) == flatten_ok(pruned.drop_last()) + ok_events(pruned.last()));
    }
}

/// Empty-result stability: a tick in which every group contributes no
/// events renders nothing and leaves the set of recorded ids exactly
/// as it was.
pub proof fn lemma_empty_tick(results: Seq<Result<Vec<LogEvent>, QueryError>>, seen: Set<Seq<char>>)
    requires
        forall|k: int| 0 <= k < results.len() ==> ok_events(#[trigger] results[k]).len() == 0,
    ensures
        flatten_ok(results).len() == 0,
        tick_lines(results, seen) == Seq::<LineV>::empty(),
        seen.union(ids_of(flatten_ok(results))) == seen,
    decreases results.len(),
{
    if results.len() == 0 {
    } else {
        assert(forall|k: int|
            0 <= k < results.drop_last().len() ==> ok_events(
                #[trigger] results.drop_last()[k],
            ).len() == 0);
        lemma_empty_tick(results.drop_last(), seen);
        assert(ok_events(results.last()).len() == 0);
        assert(flatten_ok(results).len() == 0);
    }
    let flat = flatten_ok(results);
    assert(flat =~= Seq::<LogEvent>::empty());
    assert(dedup_filter(flat, seen) =~= Seq::<LogEvent>::empty());
    assert(crate::merge::merge_by_ts(Seq::<LogEvent>::empty()) =~= Seq::<LogEvent>::empty());
    assert(crate::render::render_spec(Seq::<LogEvent>::empty()) =~= Seq::<LineV>::empty());
    assert(ids_of(flat) =~= Set::<Seq<char>>::empty());
    assert(seen.union(ids_of(flat)) =~= seen);
}

/// Classification precedence: a message containing `INFO` is styled as
/// info, whatever else (such as `ERROR` or `WARN`) it also contains.
pub proof fn lemma_classify_precedence(m: Seq<char>)
    requires
        contains_seq(m, "INFO"@),
    ensures
        classify_spec(m) == Severity::Info,
{
}

} // verus!
