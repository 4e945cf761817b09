//! The merge engine: a stable sort of one tick's surviving events into
//! a single globally time-ordered sequence. Events with equal
//! timestamps keep their arrival order, since the service does not
//! guarantee sub-millisecond ordering.

use vstd::prelude::*;
use crate::event::LogEvent;

verus! {

/// Non-decreasing by timestamp.
pub open spec fn sorted_by_ts(s: Seq<LogEvent>) -> bool {
    forall|i: int, j: int| 0 <= i < j < s.len() ==> s[i].timestamp <= s[j].timestamp
}

/// Insert `e` after every element whose timestamp is less than or equal
/// to `e`'s: the stable insertion position.
pub open spec fn insert_by_ts(s: Seq<LogEvent>, e: LogEvent) -> Seq<LogEvent>
    decreases s.len(),
{
    if s.len() == 0 {
        seq![e]
    } else if s[0].timestamp <= e.timestamp {
        seq![s[0]] + insert_by_ts(s.drop_first(), e)
    } else {
        seq![e] + s
    }
}

/// Stable sort by timestamp: insert each element, in arrival order,
/// after its timestamp-equals. This is the exact output sequence the
/// merge stage owes.
pub open spec fn merge_by_ts(s: Seq<LogEvent>) -> Seq<LogEvent>
    decreases s.len(),
{
    if s.len() == 0 {
        Seq::empty()
    } else {
        insert_by_ts(merge_by_ts(s.drop_last()), s.last())
    }
}

proof fn lemma_insert_by_ts_at(s: Seq<LogEvent>, e: LogEvent, k: int)
    requires
        0 <= k <= s.len(),
        forall|j: int| 0 <= j < k ==> s[j].timestamp <= e.timestamp,
        k < s.len() ==> s[k].timestamp > e.timestamp,
    ensures
        insert_by_ts(s, e) == s.insert(k, e),
    decreases k,
{
    if s.len() == 0 {
        assert(insert_by_ts(s, e) =~= s.insert(0, e));
    } else if k == 0 {
        assert(insert_by_ts(s, e) =~= s.insert(0, e));
    } else {
        assert(s[0].timestamp <= e.timestamp);
        lemma_insert_by_ts_at(s.drop_first(), e, k - 1);
        assert(seq![s[0]] + s.drop_first().insert(k - 1, e) =~= s.insert(k, e));
    }
}

/// Every element of the inserted sequence is `e` or an element of `s`.
proof fn lemma_insert_by_ts_elems(s: Seq<LogEvent>, e: LogEvent)
    ensures
        insert_by_ts(s, e).len() == s.len() + 1,
        forall|i: int|
            0 <= i < insert_by_ts(s, e).len() ==> (insert_by_ts(s, e)[i] == e || s.contains(
                insert_by_ts(s, e)[i],
            )),
    decreases s.len(),
{
    if s.len() == 0 {
    } else if s[0].timestamp <= e.timestamp {
        lemma_insert_by_ts_elems(s.drop_first(), e);
        assert forall|i: int| 0 <= i < insert_by_ts(s, e).len() implies (insert_by_ts(s, e)[i] == e
            || s.contains(insert_by_ts(s, e)[i])) by {
            if i > 0 {
                let t = insert_by_ts(s.drop_first(), e)[i - 1];
                assert(insert_by_ts(s, e)[i] == t);
                if t != e {
                    let j = choose|j: int| 0 <= j < s.drop_first().len() && s.drop_first()[j] == t;
                    assert(s[j + 1] == t);
                }
            }
        }
    } else {
        assert forall|i: int| 0 <= i < insert_by_ts(s, e).len() implies (insert_by_ts(s, e)[i] == e
            || s.contains(insert_by_ts(s, e)[i])) by {
            if i > 0 {
                assert(s[i - 1] == insert_by_ts(s, e)[i]);
            }
        }
    }
}

proof fn lemma_insert_by_ts_sorted(s: Seq<LogEvent>, e: LogEvent)
    requires
        sorted_by_ts(s),
    ensures
        sorted_by_ts(insert_by_ts(s, e)),
    decreases s.len(),
{
    if s.len() == 0 {
    } else if s[0].timestamp <= e.timestamp {
        assert(sorted_by_ts(s.drop_first()));
        lemma_insert_by_ts_sorted(s.drop_first(), e);
        lemma_insert_by_ts_elems(s.drop_first(), e);
        let r = insert_by_ts(s, e);
        let t = insert_by_ts(s.drop_first(), e);
        assert forall|i: int, j: int| 0 <= i < j < r.len() implies r[i].timestamp
            <= r[j].timestamp by {
            if i == 0 {
                if t[j - 1] != e {
                    let q = choose|q: int|
                        0 <= q < s.drop_first().len() && s.drop_first()[q] == t[j - 1];
                    assert(s[q + 1] == t[j - 1]);
                }
            } else {
                assert(r[i] == t[i - 1] && r[j] == t[j - 1]);
            }
        }
    } else {
        let r = insert_by_ts(s, e);
        assert forall|i: int, j: int| 0 <= i < j < r.len() implies r[i].timestamp
            <= r[j].timestamp by {
            if i > 0 {
                assert(r[i] == s[i - 1] && r[j] == s[j - 1]);
            } else {
                assert(r[j] == s[j - 1]);
                assert(s[0].timestamp > e.timestamp);
                if j - 1 > 0 {
                    assert(s[0].timestamp <= s[j - 1].timestamp);
                }
            }
        }
    }
}

/// The merged sequence is non-decreasing by timestamp: the global
/// ordering guarantee of one tick's output.
pub proof fn lemma_merge_by_ts_sorted(s: Seq<LogEvent>)
    ensures
        sorted_by_ts(merge_by_ts(s)),
    decreases s.len(),
{
    if s.len() > 0 {
        lemma_merge_by_ts_sorted(s.drop_last());
        lemma_insert_by_ts_sorted(merge_by_ts(s.drop_last()), s.last());
    }
}

proof fn lemma_insert_by_ts_multiset(s: Seq<LogEvent>, e: LogEvent)
    ensures
        insert_by_ts(s, e).to_multiset() == s.to_multiset().insert(e),
    decreases s.len(),
{
    broadcast use vstd::seq_lib::group_to_multiset_ensures;

    if s.len() == 0 {
        assert(seq![e] =~= Seq::<LogEvent>::empty().push(e));
        assert(seq![e].to_multiset() =~= s.to_multiset().insert(e));
    } else if s[0].timestamp <= e.timestamp {
        lemma_insert_by_ts_multiset(s.drop_first(), e);
        assert(seq![s[0]] + insert_by_ts(s.drop_first(), e) =~= insert_by_ts(
            s.drop_first(),
            e,
        ).insert(0, s[0]));
        assert((seq![s[0]] + insert_by_ts(s.drop_first(), e)).to_multiset() =~= insert_by_ts(
            s.drop_first(),
            e,
        ).to_multiset().insert(s[0]));
        assert(s =~= s.drop_first().insert(0, s[0]));
        assert(s.to_multiset() =~= s.drop_first().to_multiset().insert(s[0]));
        assert(insert_by_ts(s, e).to_multiset() =~= s.to_multiset().insert(e));
    } else {
        assert(seq![e] + s =~= s.insert(0, e));
        assert((seq![e] + s).to_multiset() =~= s.to_multiset().insert(e));
    }
}

/// The merged sequence holds exactly the events of the input: merging
/// loses nothing and invents nothing.
pub proof fn lemma_merge_by_ts_multiset(s: Seq<LogEvent>)
    ensures
        merge_by_ts(s).to_multiset() == s.to_multiset(),
        merge_by_ts(s).len() == s.len(),
    decreases s.len(),
{
    broadcast use vstd::seq_lib::group_to_multiset_ensures;

    if s.len() == 0 {
        assert(merge_by_ts(s) =~= Seq::<LogEvent>::empty());
    } else {
        lemma_merge_by_ts_multiset(s.drop_last());
        lemma_insert_by_ts_multiset(merge_by_ts(s.drop_last()), s.last());
        assert(s =~= s.drop_last().push(s.last()));
        assert(s.to_multiset() =~= s.drop_last().to_multiset().insert(s.last()));
        lemma_insert_by_ts_elems(merge_by_ts(s.drop_last()), s.last());
    }
}

/// Sort a tick's new events into one globally time-ordered sequence,
/// stably: arrival order is kept among equal timestamps.
pub fn sort_events(events: Vec<LogEvent>) -> (out: Vec<LogEvent>)
    ensures
        out@ == merge_by_ts(events@),
        sorted_by_ts(out@),
{
    let ghost orig = events@;
    let mut events = events;
    let mut out: Vec<LogEvent> = Vec::new();
    let ghost mut processed = Seq::<LogEvent>::empty();
    proof {
        assert(processed + events@ =~= orig);
        assert(merge_by_ts(processed) =~= out@);
    }
    while events.len() > 0
        invariant
            processed + events@ == orig,
            out@ == merge_by_ts(processed),
            sorted_by_ts(out@),
        decreases events@.len(),
    {
        let ghost pre_events = events@;
        let e = events.remove(0);
        proof {
            assert(pre_events[0] == e);
            assert(pre_events.drop_first() =~= events@);
        }
        let n = out.len();
        let mut k: usize = 0;
        loop
            invariant
                k <= n,
                n == out@.len(),
                forall|j: int| 0 <= j < k ==> out@[j].timestamp <= e.timestamp,
            ensures
                k <= n,
                n == out@.len(),
                forall|j: int| 0 <= j < k ==> out@[j].timestamp <= e.timestamp,
                k == n || out@[k as int].timestamp > e.timestamp,
            decreases n - k,
        {
            if k == n {
                break ;
            }
            if out[k].timestamp > e.timestamp {
                break ;
            }
            k = k + 1;
        }
        proof {
            lemma_insert_by_ts_at(out@, e, k as int);
        }
        out.insert(k, e);
        proof {
            let next = processed.push(e);
            assert(next.drop_last() =~= processed);
            assert(next.last() == e);
            assert(merge_by_ts(next) == insert_by_ts(merge_by_ts(processed), e));
            lemma_insert_by_ts_sorted(merge_by_ts(processed), e);
            processed = next;
            assert(processed + events@ =~= orig);
        }
    }
    proof {
        assert(processed =~= orig);
    }
    out
}

} // verus!
