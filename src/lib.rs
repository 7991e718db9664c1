//! The event synchronization and caching engine of a venue website.
//!
//! Events are plain values ([`event::Event`]) dated by a [`time::Timestamp`].
//! The snapshot holder ([`calendar::Calendar`]) keeps one sorted list of all
//! known events and answers range and year queries from it; the cache
//! decorator ([`cache::EventCache`]) keeps per-range results with a
//! time-to-live and serves stale entries while a single refresh runs.
//!
//! The periodic sync task's decisions are in [`sync_task`]; what a sync
//! reports to the metrics collaborator is in [`metrics`]. The remote
//! provider's records and query parameters are in [`google`], and the
//! markdown descriptions of events are turned into HTML by [`markdown`].
pub mod by_year;
pub mod cache;
pub mod calendar;
pub mod config;
pub mod decimal;
pub mod error;
pub mod event;
pub mod google;
pub mod markdown;
pub mod metrics;
pub mod sync_task;
pub mod templating;
pub mod time;
