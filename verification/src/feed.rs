//! Theft-feed ingestion: turning fetched search pages and detail
//! records into theft events the correlator can use.
//!
//! The feed itself is paginated I/O performed by the caller; this
//! module holds the ingestion rules: collect the idents of a page,
//! resolve each ident at most once per run, and skip any detail record
//! without a creation timestamp, which cannot be correlated.

use vstd::prelude::*;

use crate::correlate::has_name;
use crate::structs::{AvatarList, TheftEvent};

verus! {

/// The idents listed on one search page, in page order.
pub fn page_idents(page: &AvatarList) -> (idents: Vec<String>)
    ensures
        idents@.len() == page.avatars@.len(),
        forall|k: int|
            0 <= k < idents@.len() ==> #[trigger] idents@[k]@ == page.avatars@[k].ident@,
{
    let n = page.avatars.len();
    let mut idents: Vec<String> = Vec::new();
    let mut i: usize = 0;
    while i < n
        invariant
            i <= n,
            n == page.avatars@.len(),
            idents@.len() == i,
            forall|k: int| 0 <= k < i ==> #[trigger] idents@[k]@ == page.avatars@[k].ident@,
        decreases n - i,
    {
        idents.push(page.avatars[i].ident.clone());
        i += 1;
    }
    idents
}

/// Filters a batch of idents down to those not yet processed in this
/// run, deduplicating within the batch as well: each returned ident is
/// new, each new ident is returned once.
pub fn fresh_idents(seen: &Vec<String>, batch: &Vec<String>) -> (fresh: Vec<String>)
    ensures
        forall|p: int, q: int|
            0 <= p < q < fresh@.len() ==> #[trigger] fresh@[p]@ != #[trigger] fresh@[q]@,
        forall|k: int|
            0 <= k < fresh@.len() ==> has_name(batch@, #[trigger] fresh@[k]@) && !has_name(
                seen@,
                fresh@[k]@,
            ),
        forall|j: int|
            0 <= j < batch@.len() && !has_name(seen@, #[trigger] batch@[j]@) ==> has_name(
                fresh@,
                batch@[j]@,
            ),
{
    let n = batch.len();
    let mut fresh: Vec<String> = Vec::new();
    let mut i: usize = 0;
    while i < n
        invariant
            i <= n,
            n == batch@.len(),
            forall|p: int, q: int|
                0 <= p < q < fresh@.len() ==> #[trigger] fresh@[p]@ != #[trigger] fresh@[q]@,
            forall|k: int|
                0 <= k < fresh@.len() ==> has_name(batch@, #[trigger] fresh@[k]@) && !has_name(
                    seen@,
                    fresh@[k]@,
                ),
            forall|j: int|
                0 <= j < i && !has_name(seen@, #[trigger] batch@[j]@) ==> has_name(
                    fresh@,
                    batch@[j]@,
                ),
        decreases n - i,
    {
        let ghost pre = fresh@;
        let in_seen = crate::correlate::contains_name(seen, &batch[i]);
        if !in_seen {
            let in_fresh = crate::correlate::contains_name(&fresh, &batch[i]);
            if !in_fresh {
                fresh.push(batch[i].clone());
                assert(fresh@[fresh@.len() - 1]@ == batch@[i as int]@);
                assert(forall|k: int| 0 <= k < pre.len() ==> #[trigger] fresh@[k]@ == pre[k]@);
                assert(has_name(batch@, fresh@[fresh@.len() - 1]@)) by {
                    assert(batch@[i as int]@ == fresh@[fresh@.len() - 1]@);
                }
            }
        }
        proof {
            assert forall|j: int|
                0 <= j < i + 1 && !has_name(seen@, #[trigger] batch@[j]@) implies has_name(
                fresh@,
                batch@[j]@,
            ) by {
                if j < i {
                    assert(has_name(pre, batch@[j]@));
                    let k = choose|k: int| 0 <= k < pre.len() && #[trigger] pre[k]@ == batch@[j]@;
                    assert(fresh@[k]@ == batch@[j]@);
                } else {
                    if fresh@.len() > pre.len() {
                        assert(fresh@[fresh@.len() - 1]@ == batch@[j]@);
                    } else {
                        assert(has_name(pre, batch@[i as int]@));
                        let k = choose|k: int|
                            0 <= k < pre.len() && #[trigger] pre[k]@ == batch@[i as int]@;
                        assert(fresh@[k]@ == batch@[j]@);
                    }
                }
            }
        }
        i += 1;
    }
    fresh
}

/// Admits one resolved feed detail as a theft event.  A record without
/// a creation timestamp cannot be placed on the timeline and is
/// skipped.
pub fn make_event(
    ident: String,
    avatar_name: String,
    created: Option<u64>,
    last_updated: Option<u64>,
) -> (r: Option<TheftEvent>)
    ensures
        r is Some <==> created is Some,
        r is Some ==> {
            &&& r->Some_0.ident == ident
            &&& r->Some_0.avatar_name == avatar_name
            &&& r->Some_0.created_at == created->Some_0
            &&& r->Some_0.last_updated == last_updated
        },
{
    match created {
        Some(c) => Some(
            TheftEvent { ident, avatar_name, created_at: c, last_updated },
        ),
        None => None,
    }
}

} // verus!
