//! Theft detection and correlation engine for private avatar assets.
//!
//! The engine matches externally reported theft events against a local
//! presence log by time window, keeps a persisted suspicion ledger of
//! per-user hit counts, resolves missing platform identities, detects
//! changes between marketplace snapshots, and drives a live log-tail
//! state machine for deferred verification.
//!
//! All I/O (the relational presence store, the marketplace feed, the
//! persisted artifacts and the log file itself) lives outside this
//! crate; the engine works on plain values handed in by the caller.

pub mod backfill;
pub mod correlate;
pub mod feed;
pub mod ledger;
pub mod presence;
pub mod report;
pub mod snapshot;
pub mod startup;
pub mod structs;
pub mod watcher;
