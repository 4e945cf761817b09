//! Verified core of a log-group watcher: normalization of raw query
//! results, process-lifetime deduplication, global time-ordered merging,
//! and severity classification for rendering.

pub mod config;
pub mod dedup;
pub mod event;
pub mod laws;
pub mod listing;
pub mod merge;
pub mod render;
pub mod tick;
pub mod text;
