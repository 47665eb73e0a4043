//! Startup sequencing: which pipeline phases run, decided from the
//! checkpoint markers observed on disk.
//!
//! Each marker gates one phase.  A stale scan state from before the
//! current counting rules is cleared once: when the scan-complete
//! marker exists but the version marker is missing or still carries
//! the initial tag, the scan state (marker and ledger) is discarded
//! and the scan re-runs from scratch.

use vstd::prelude::*;

verus! {

/// What a startup decides, given the markers it found.
pub struct StartupPlan {
    /// Discard the scan-complete marker and the ledger before anything
    /// else (one-time migration of a stale scan state).
    pub clear_scan_state: bool,
    /// No stored session credential: the login collaborator must run.
    pub need_login: bool,
    /// The backfill-complete marker is missing: run the backfill pass.
    pub run_backfill: bool,
    /// The own-identity artifact is missing: fetch and persist it.
    pub fetch_own_id: bool,
    /// The scan-complete marker is (now) missing: run the full
    /// correlation pass.
    pub run_scan: bool,
}

/// Decides the startup plan from the markers observed on disk.
/// `version_is_initial` reports whether the version marker carries the
/// tag of the first release, whose scan state predates the current
/// counting rules.
pub fn plan_startup(
    auth_present: bool,
    backfill_done: bool,
    own_id_present: bool,
    scan_done: bool,
    version_present: bool,
    version_is_initial: bool,
) -> (p: StartupPlan)
    ensures
        p.clear_scan_state == (scan_done && (!version_present || version_is_initial)),
        p.need_login == !auth_present,
        p.run_backfill == !backfill_done,
        p.fetch_own_id == !own_id_present,
        p.run_scan == (!scan_done || p.clear_scan_state),
{
    let clear_scan_state = scan_done && (!version_present || version_is_initial);
    StartupPlan {
        clear_scan_state,
        need_login: !auth_present,
        run_backfill: !backfill_done,
        fetch_own_id: !own_id_present,
        run_scan: !scan_done || clear_scan_state,
    }
}

} // verus!
