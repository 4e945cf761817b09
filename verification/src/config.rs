//! Startup configuration decisions for the watch command: validating
//! the group list and resolving the refresh interval. The duration
//! grammar itself is the command line's concern; the library receives
//! the outcome of that parse as plain values and decides from it.

use vstd::prelude::*;

verus! {

/// The refresh argument as the command surface delivered it: absent,
/// parsed to whole seconds and subsecond nanoseconds, or given but not
/// a valid duration.
#[derive(Clone, Copy, PartialEq, Eq, Structural, Debug)]
pub enum RefreshArg {
    Absent,
    Parsed(u64, u32),
    Invalid,
}

/// A configuration fault that is fatal at startup and never reaches
/// the watch loop.
#[derive(Clone, Copy, PartialEq, Eq, Structural, Debug)]
pub enum ConfigError {
    BadRefresh,
}

/// The decision taken before the watch loop starts.
#[derive(Clone, Copy, PartialEq, Eq, Structural, Debug)]
pub enum WatchPlan {
    /// Nothing to watch: report it and exit cleanly, without error.
    NoGroups,
    /// Run the loop with this refresh interval, as whole seconds and
    /// subsecond nanoseconds.
    Run(u64, u32),
}

/// The default refresh interval, in seconds, when none is given.
pub const DEFAULT_REFRESH_SECS: u64 = 10;

/// Decide how the watch command starts: an empty group list exits
/// cleanly; a missing refresh argument means the default interval; a
/// malformed refresh argument is a fatal configuration error.
pub fn plan_watch(groups: &Vec<String>, refresh: RefreshArg) -> (r: Result<WatchPlan, ConfigError>)
    ensures
        groups@.len() == 0 ==> r == Result::<WatchPlan, ConfigError>::Ok(WatchPlan::NoGroups),
        groups@.len() > 0 ==> r == match refresh {
            RefreshArg::Absent => Result::<WatchPlan, ConfigError>::Ok(
                WatchPlan::Run(DEFAULT_REFRESH_SECS, 0),
            ),
            RefreshArg::Parsed(secs, nanos) => Result::<WatchPlan, ConfigError>::Ok(
                WatchPlan::Run(secs, nanos),
            ),
            RefreshArg::Invalid => Result::<WatchPlan, ConfigError>::Err(ConfigError::BadRefresh),
        },
{
    if groups.len() == 0 {
        return Result::Ok(WatchPlan::NoGroups);
    }
    match refresh {
        RefreshArg::Absent => Result::Ok(WatchPlan::Run(DEFAULT_REFRESH_SECS, 0)),
        RefreshArg::Parsed(secs, nanos) => Result::Ok(WatchPlan::Run(secs, nanos)),
        RefreshArg::Invalid => Result::Err(ConfigError::BadRefresh),
    }
}

} // verus!
