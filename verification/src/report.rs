//! The suspect summary: the ledger's non-zero entries joined with the
//! identities the mapping knows, in ledger order, for the caller to
//! print on demand.

use vstd::prelude::*;

use crate::backfill::{id_for, IdentityMapping};
use crate::ledger::SuspicionLedger;
use crate::structs::RipperData;

verus! {

/// The ledger entries with at least one hit, in order.
pub open spec fn hits_of(s: Seq<RipperData>) -> Seq<RipperData> {
    s.filter(|e: RipperData| e.count != 0)
}

/// One summary row per suspected name: the name, its platform
/// identity when the mapping knows one, and its hit count.
pub fn suspect_report(ledger: &SuspicionLedger, mapping: &IdentityMapping) -> (r: Vec<
    (String, Option<String>, u64),
>)
    requires
        mapping.wf(),
    ensures
        r@.len() == hits_of(ledger.entries@).len(),
        forall|k: int|
            0 <= k < r@.len() ==> {
                &&& (#[trigger] r@[k]).0 == hits_of(ledger.entries@)[k].name
                &&& r@[k].1 == id_for(mapping@, hits_of(ledger.entries@)[k].name@)
                &&& r@[k].2 == hits_of(ledger.entries@)[k].count
            },
{
    let entries = ledger.get_all();
    let n = entries.len();
    let mut r: Vec<(String, Option<String>, u64)> = Vec::new();
    proof {
        reveal(Seq::filter);
        assert(entries@.take(0) =~= Seq::<RipperData>::empty());
    }
    let mut i: usize = 0;
    while i < n
        invariant
            i <= n,
            n == entries@.len(),
            mapping.wf(),
            r@.len() == hits_of(entries@.take(i as int)).len(),
            forall|k: int|
                0 <= k < r@.len() ==> {
                    &&& (#[trigger] r@[k]).0 == hits_of(entries@.take(i as int))[k].name
                    &&& r@[k].1 == id_for(mapping@, hits_of(entries@.take(i as int))[k].name@)
                    &&& r@[k].2 == hits_of(entries@.take(i as int))[k].count
                },
        decreases n - i,
    {
        let ghost pre = entries@.take(i as int);
        let ghost cur = entries@.take(i as int + 1);
        proof {
            reveal(Seq::filter);
            assert(cur.drop_last() =~= pre);
            assert(cur.last() == entries@[i as int]);
        }
        let entry = &entries[i];
        if entry.count != 0 {
            let id = mapping.lookup_id(&entry.name);
            r.push((entry.name.clone(), id, entry.count));
            assert(hits_of(cur) =~= hits_of(pre).push(entries@[i as int]));
        } else {
            assert(hits_of(cur) =~= hits_of(pre));
        }
        i += 1;
    }
    proof {
        assert(entries@.take(n as int) =~= entries@);
        assert(entries@ == ledger.entries@);
    }
    r
}

} // verus!
