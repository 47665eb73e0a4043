//! The presence store's query shape: join records inside a closed
//! time interval.
//!
//! The store itself is a relational log read by the caller; this
//! module gives the query its meaning on the records once they are in
//! memory, with inclusive bounds on the join timestamp.  An empty
//! result is an answer, not an error.

use vstd::prelude::*;

use crate::structs::UserData;

verus! {

/// The join records with timestamps in `[start, end]`, in log order.
pub open spec fn joins_between(records: Seq<UserData>, start: u64, end: u64) -> Seq<UserData> {
    records.filter(|u: UserData| start <= u.created_at <= end)
}

/// Copies one record, field by field.
fn copy_record(r: &UserData) -> (c: UserData)
    ensures
        c == *r,
{
    let user_id = match &r.user_id {
        Some(id) => Some(id.clone()),
        None => None,
    };
    UserData { created_at: r.created_at, display_name: r.display_name.clone(), user_id }
}

/// Answers the window query over the presence records: exactly the
/// joins with `start <= joined_at <= end`, bounds included, in order.
pub fn query_joins_in_window(records: &Vec<UserData>, start: u64, end: u64) -> (r: Vec<UserData>)
    ensures
        r@ == joins_between(records@, start, end),
{
    let n = records.len();
    let mut r: Vec<UserData> = Vec::new();
    proof {
        reveal(Seq::filter);
        assert(records@.take(0) =~= Seq::<UserData>::empty());
    }
    let mut i: usize = 0;
    while i < n
        invariant
            i <= n,
            n == records@.len(),
            r@ == joins_between(records@.take(i as int), start, end),
        decreases n - i,
    {
        let row = &records[i];
        let ghost pre = records@.take(i as int);
        let ghost cur = records@.take(i as int + 1);
        proof {
            reveal(Seq::filter);
            assert(cur.drop_last() =~= pre);
            assert(cur.last() == records@[i as int]);
        }
        if start <= row.created_at && row.created_at <= end {
            let copy = copy_record(row);
            assert(copy == records@[i as int]);
            r.push(copy);
        }
        i += 1;
    }
    proof {
        assert(records@.take(n as int) =~= records@);
    }
    r
}

} // verus!
