//! The avatar-snapshot differ.
//!
//! Once per scan the engine is handed the freshly fetched marketplace
//! state and compares it to the snapshot persisted by the previous
//! scan: a grown listing count, or a change in any previously known
//! entry's last-update timestamp, signals new theft.  The fresh state
//! then replaces the snapshot wholesale, whatever the signal said —
//! the snapshot is a point-in-time cache, not a log.

use vstd::prelude::*;

use crate::structs::{AvatarData, SaveData};

verus! {

/// Whether some previously tracked entry reappears in the fresh list
/// under the same name with a different last-update timestamp.
pub open spec fn updated_changed(prev: Seq<AvatarData>, cur: Seq<AvatarData>) -> bool {
    exists|i: int, j: int|
        #![trigger prev[i], cur[j]]
        0 <= i < prev.len() && 0 <= j < cur.len() && prev[i].name@ == cur[j].name@ && prev[i].updated
            != cur[j].updated
}

/// The differ's signal: the listing count grew, or a known entry was
/// updated again.
pub open spec fn new_theft_detected(prev: SaveData, cur: SaveData) -> bool {
    cur.count > prev.count || updated_changed(prev.avatar_list@, cur.avatar_list@)
}

/// Whether two optional timestamps are the same.
fn same_updated(a: &Option<u64>, b: &Option<u64>) -> (r: bool)
    ensures
        r == (*a == *b),
{
    match (a, b) {
        (Some(x), Some(y)) => *x == *y,
        (None, None) => true,
        _ => false,
    }
}

/// Compares the persisted snapshot against the freshly fetched state
/// and reports whether it signals new theft.
pub fn diff_snapshots(prev: &SaveData, cur: &SaveData) -> (changed: bool)
    ensures
        changed == new_theft_detected(*prev, *cur),
{
    if cur.count > prev.count {
        return true;
    }
    let np = prev.avatar_list.len();
    let nc = cur.avatar_list.len();
    let mut i: usize = 0;
    while i < np
        invariant
            i <= np,
            np == prev.avatar_list@.len(),
            nc == cur.avatar_list@.len(),
            forall|p: int, q: int|
                #![trigger prev.avatar_list@[p], cur.avatar_list@[q]]
                0 <= p < i && 0 <= q < nc ==> !(prev.avatar_list@[p].name@
                    == cur.avatar_list@[q].name@ && prev.avatar_list@[p].updated
                    != cur.avatar_list@[q].updated),
        decreases np - i,
    {
        let mut j: usize = 0;
        while j < nc
            invariant
                i < np,
                j <= nc,
                np == prev.avatar_list@.len(),
                nc == cur.avatar_list@.len(),
                forall|q: int|
                    0 <= q < j ==> !(#[trigger] cur.avatar_list@[q].name@
                        == prev.avatar_list@[i as int].name@ && prev.avatar_list@[i as int].updated
                        != cur.avatar_list@[q].updated),
            decreases nc - j,
        {
            let p_entry = &prev.avatar_list[i];
            let c_entry = &cur.avatar_list[j];
            if p_entry.name == c_entry.name && !same_updated(&p_entry.updated, &c_entry.updated) {
                return true;
            }
            j += 1;
        }
        i += 1;
    }
    false
}

/// One differ step: the signal for the fresh state, and the fresh
/// state itself as the snapshot to persist in place of the old one.
pub fn refresh_snapshot(prev: &SaveData, fresh: SaveData) -> (r: (SaveData, bool))
    ensures
        r.0 == fresh,
        r.1 == new_theft_detected(*prev, fresh),
{
    let changed = diff_snapshots(prev, &fresh);
    (fresh, changed)
}

} // verus!
