//! The event data model: one log line from one group at one instant,
//! and the normalization of raw query fields into it.

use vstd::prelude::*;
use crate::text::trimmed;
use crate::text::trim_str;

verus! {

/// One log event, as retrieved from the log service.
///
/// `event_id` is the service-assigned identity, unique across the whole
/// service namespace; it is the sole deduplication key. `timestamp` is
/// the event time in milliseconds since the Unix epoch, the source of
/// truth for ordering. `message` is the trimmed event body.
pub struct LogEvent {
    pub event_id: String,
    pub group: String,
    pub timestamp: i64,
    pub message: String,
}

/// A failed query against one log group, carrying a description of the
/// underlying cause. Failures are local to the group that raised them.
pub struct QueryError {
    pub message: String,
}

/// Build an event from the raw fields of one query-response entry.
///
/// Optional fields are defaulted rather than rejected: a missing id
/// becomes the empty string, a missing timestamp becomes the epoch, a
/// missing message becomes the empty string. The message is trimmed.
pub fn normalize_event(
    group: &str,
    event_id: Option<String>,
    timestamp: Option<i64>,
    message: Option<String>,
) -> (e: LogEvent)
    ensures
        e.group@ == group@,
        e.event_id@ == match event_id {
            Option::Some(id) => id@,
            Option::None => Seq::<char>::empty(),
        },
        e.timestamp == match timestamp {
            Option::Some(t) => t,
            Option::None => 0i64,
        },
        e.message@ == match message {
            Option::Some(m) => trimmed(m@),
            Option::None => Seq::<char>::empty(),
        },
{
    let id = match event_id {
        Option::Some(id) => id,
        Option::None => String::new(),
    };
    let ts = match timestamp {
        Option::Some(t) => t,
        Option::None => 0,
    };
    let msg = match message {
        Option::Some(m) => trim_str(m.as_str()),
        Option::None => String::new(),
    };
    LogEvent { event_id: id, group: group.to_owned(), timestamp: ts, message: msg }
}

} // verus!
