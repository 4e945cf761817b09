//! The deduplication engine: the process-lifetime set of event
//! identities already rendered, and the filter that drops events whose
//! identity was already seen.

use vstd::prelude::*;
use crate::event::LogEvent;

verus! {

/// The set of event ids rendered so far in this run. It only ever
/// grows: an id once recorded is never removed.
pub struct SeenEventIds {
    ids: Vec<String>,
}

impl View for SeenEventIds {
    type V = Set<Seq<char>>;

    closed spec fn view(&self) -> Set<Seq<char>> {
        Set::new(|x: Seq<char>| exists|k: int| 0 <= k < self.ids@.len() && self.ids@[k]@ == x)
    }
}

/// The identities occurring in a batch of events.
pub open spec fn ids_of(s: Seq<LogEvent>) -> Set<Seq<char>> {
    Set::new(|x: Seq<char>| exists|k: int| 0 <= k < s.len() && s[k].event_id@ == x)
}

/// The events of `s`, in order, whose id is neither in `seen` nor on an
/// earlier event of `s`: exactly what one tick may render.
pub open spec fn dedup_filter(s: Seq<LogEvent>, seen: Set<Seq<char>>) -> Seq<LogEvent>
    decreases s.len(),
{
    if s.len() == 0 {
        Seq::empty()
    } else if seen.contains(s[0].event_id@) {
        dedup_filter(s.drop_first(), seen)
    } else {
        seq![s[0]] + dedup_filter(s.drop_first(), seen.insert(s[0].event_id@))
    }
}

impl SeenEventIds {
    /// An empty record: nothing has been rendered yet.
    pub fn new() -> (s: Self)
        ensures
            s@ == Set::<Seq<char>>::empty(),
    {
        let s = SeenEventIds { ids: Vec::new() };
        proof {
            assert(s@ =~= Set::<Seq<char>>::empty());
        }
        s
    }

    /// Has this id been recorded?
    pub fn contains(&self, id: &String) -> (r: bool)
        ensures
            r == self@.contains(id@),
    {
        let n = self.ids.len();
        let mut k: usize = 0;
        while k < n
            invariant
                k <= n,
                n == self.ids@.len(),
                forall|q: int| 0 <= q < k ==> self.ids@[q]@ != id@,
            decreases n - k,
        {
            if self.ids[k] == *id {
                return true;
            }
            k = k + 1;
        }
        false
    }

    /// Record an id as rendered.
    pub fn record(&mut self, id: String)
        ensures
            final(self)@ == old(self)@.insert(id@),
    {
        let ghost pre = old(self)@;
        let ghost xid = id@;
        self.ids.push(id);
        proof {
            let m = old(self).ids@.len() as int;
            assert forall|x: Seq<char>| self@.contains(x) implies pre.insert(xid).contains(x) by {
                let k = choose|k: int| 0 <= k < self.ids@.len() && self.ids@[k]@ == x;
                if k < m {
                    assert(old(self).ids@[k]@ == x);
                } else {
                    assert(x == xid);
                }
            }
            assert forall|x: Seq<char>| pre.insert(xid).contains(x) implies self@.contains(x) by {
                if x == xid {
                    assert(self.ids@[m]@ == x);
                } else {
                    let k = choose|k: int| 0 <= k < old(self).ids@.len() && old(self).ids@[k]@ == x;
                    assert(self.ids@[k]@ == x);
                }
            }
            assert(self@ =~= pre.insert(xid));
        }
    }
}

/// Filter a tick's flattened batch against the set of already-rendered
/// ids, recording every id of the batch, and keep only the events whose
/// id had not been seen before (by an earlier tick, or earlier in this
/// same batch).
pub fn dedup_batch(events: Vec<LogEvent>, seen: &mut SeenEventIds) -> (fresh: Vec<LogEvent>)
    ensures
        fresh@ == dedup_filter(events@, old(seen)@),
        final(seen)@ == old(seen)@.union(ids_of(events@)),
{
    let ghost orig = events@;
    let ghost seen0 = old(seen)@;
    let mut events = events;
    let mut fresh: Vec<LogEvent> = Vec::new();
    proof {
        assert(dedup_filter(orig, seen0) =~= fresh@ + dedup_filter(events@, seen@));
        assert(seen0.union(ids_of(orig)) =~= seen@.union(ids_of(events@)));
    }
    while events.len() > 0
        invariant
            dedup_filter(orig, seen0) == fresh@ + dedup_filter(events@, seen@),
            seen0.union(ids_of(orig)) == seen@.union(ids_of(events@)),
        decreases events@.len(),
    {
        let ghost pre_events = events@;
        let ghost pre_seen = seen@;
        let ghost pre_fresh = fresh@;
        let e = events.remove(0);
        proof {
            assert(pre_events[0] == e);
            assert(pre_events.drop_first() =~= events@);
            assert forall|x: Seq<char>| ids_of(pre_events).contains(x) implies ids_of(
                events@,
            ).insert(e.event_id@).contains(x) by {
                let k = choose|k: int| 0 <= k < pre_events.len() && pre_events[k].event_id@ == x;
                if k > 0 {
                    assert(events@[k - 1].event_id@ == x);
                }
            }
            assert forall|x: Seq<char>| ids_of(events@).insert(e.event_id@).contains(x) implies
                ids_of(pre_events).contains(x) by {
                if x == e.event_id@ {
                    assert(pre_events[0].event_id@ == x);
                } else {
                    let k = choose|k: int| 0 <= k < events@.len() && events@[k].event_id@ == x;
                    assert(pre_events[k + 1].event_id@ == x);
                }
            }
            assert(ids_of(pre_events) =~= ids_of(events@).insert(e.event_id@));
        }
        if seen.contains(&e.event_id) {
            proof {
                assert(dedup_filter(pre_events, pre_seen) == dedup_filter(events@, pre_seen));
                assert(pre_seen.union(ids_of(pre_events)) =~= pre_seen.union(ids_of(events@)));
            }
        } else {
            let id = e.event_id.clone();
            proof {
                assert(id@ == e.event_id@);
            }
            seen.record(id);
            fresh.push(e);
            proof {
                assert(dedup_filter(pre_events, pre_seen) == seq![e] + dedup_filter(
                    events@,
                    pre_seen.insert(e.event_id@),
                ));
                assert(fresh@ =~= pre_fresh + seq![e]);
                assert(pre_fresh + (seq![e] + dedup_filter(events@, seen@)) =~= (pre_fresh
                    + seq![e]) + dedup_filter(events@, seen@));
                assert(pre_seen.union(ids_of(pre_events)) =~= seen@.union(ids_of(events@)));
            }
        }
    }
    proof {
        assert(events@.len() == 0);
        assert(dedup_filter(events@, seen@) =~= Seq::<LogEvent>::empty());
        assert(fresh@ + Seq::<LogEvent>::empty() =~= fresh@);
        assert(ids_of(events@) =~= Set::<Seq<char>>::empty());
        assert(seen@.union(ids_of(events@)) =~= seen@);
    }
    fresh
}

} // verus!
