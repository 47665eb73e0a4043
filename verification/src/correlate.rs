//! The time-window correlator.
//!
//! For each resolvable theft event the correlator looks at two candidate
//! windows, each five minutes to either side of a timestamp: one centred
//! on the event's creation time and, when present, one centred on its
//! last update.  Every display name with at least one join inside a
//! window is charged exactly one hit in the suspicion ledger for that
//! window, however many of its join rows fall inside.

use vstd::prelude::*;

use crate::ledger::{bump, count_of, SuspicionLedger};
use crate::structs::{TheftEvent, UserData};

verus! {

/// Half-width of a correlation window in milliseconds: five minutes.
pub const WINDOW_RADIUS_MS: u64 = 300000;

/// Whether a join at `t` lies in the window centred on `center`,
/// bounds included.
pub open spec fn in_window(center: int, t: int) -> bool {
    center - WINDOW_RADIUS_MS <= t <= center + WINDOW_RADIUS_MS
}

/// The distinct display names with at least one join inside the window
/// centred on `center`.
pub open spec fn window_names(records: Seq<UserData>, center: int) -> Set<Seq<char>> {
    Set::new(
        |n: Seq<char>|
            exists|i: int|
                0 <= i < records.len() && #[trigger] records[i].display_name@ == n && in_window(
                    center,
                    records[i].created_at as int,
                ),
    )
}

/// The count map after one window: every listed name is charged one
/// hit, every other name keeps its count.
pub open spec fn bumped(m: Map<Seq<char>, nat>, names: Set<Seq<char>>) -> Map<Seq<char>, nat> {
    Map::new(
        |n: Seq<char>| m.dom().contains(n) || names.contains(n),
        |n: Seq<char>|
            if names.contains(n) {
                bump(count_of(m, n))
            } else {
                count_of(m, n)
            },
    )
}

/// A window charges each present name exactly one hit and leaves every
/// other name untouched, regardless of how many presence rows share the
/// name inside the window.
pub proof fn lemma_window_counts(
    m: Map<Seq<char>, nat>,
    records: Seq<UserData>,
    center: int,
    name: Seq<char>,
)
    ensures
        window_names(records, center).contains(name) ==> count_of(
            bumped(m, window_names(records, center)),
            name,
        ) == bump(count_of(m, name)),
        !window_names(records, center).contains(name) ==> count_of(
            bumped(m, window_names(records, center)),
            name,
        ) == count_of(m, name),
{
}

/// Charging one more name not yet charged extends the charged set.
proof fn lemma_bumped_insert(m: Map<Seq<char>, nat>, names: Set<Seq<char>>, n: Seq<char>)
    requires
        !names.contains(n),
    ensures
        bumped(m, names).insert(n, bump(count_of(m, n))) =~= bumped(m, names.insert(n)),
{
}

/// An empty window charges nobody.
proof fn lemma_bumped_empty(m: Map<Seq<char>, nat>)
    ensures
        bumped(m, Set::empty()) =~= m,
{
}

/// The set of views of the first `k` names of a list.
pub open spec fn name_prefix_set(names: Seq<String>, k: int) -> Set<Seq<char>> {
    Set::new(|n: Seq<char>| exists|j: int| 0 <= j < k && #[trigger] names[j]@ == n)
}

/// Whether `t` lies in the window centred on `center`.  Saturation is
/// exact here: a clamped bound only widens past the `u64` range, where
/// no join timestamp lives.
pub fn joined_in_window(t: u64, center: u64) -> (r: bool)
    ensures
        r == in_window(center as int, t as int),
{
    center.saturating_sub(WINDOW_RADIUS_MS) <= t && t <= center.saturating_add(WINDOW_RADIUS_MS)
}

/// Whether some element of `s` reads as `n`.
pub open spec fn has_name(s: Seq<String>, n: Seq<char>) -> bool {
    exists|k: int| 0 <= k < s.len() && #[trigger] s[k]@ == n
}

/// Whether some element of `v` has the same characters as `name`.
pub(crate) fn contains_name(v: &Vec<String>, name: &String) -> (r: bool)
    ensures
        r == has_name(v@, name@),
{
    let n = v.len();
    let mut i: usize = 0;
    while i < n
        invariant
            i <= n,
            n == v@.len(),
            forall|k: int| 0 <= k < i ==> #[trigger] v@[k]@ != name@,
        decreases n - i,
    {
        if v[i] == *name {
            return true;
        }
        i += 1;
    }
    false
}

/// Collects the distinct display names joined inside the window centred
/// on `center`: each present name once, and nothing else.
pub fn names_in_window(records: &Vec<UserData>, center: u64) -> (names: Vec<String>)
    ensures
        forall|p: int, q: int|
            0 <= p < q < names@.len() ==> #[trigger] names@[p]@ != #[trigger] names@[q]@,
        forall|k: int|
            0 <= k < names@.len() ==> window_names(records@, center as int).contains(
                #[trigger] names@[k]@,
            ),
        forall|n: Seq<char>|
            #[trigger] window_names(records@, center as int).contains(n) ==> exists|k: int|
                0 <= k < names@.len() && #[trigger] names@[k]@ == n,
{
    let n = records.len();
    let mut names: Vec<String> = Vec::new();
    let mut i: usize = 0;
    while i < n
        invariant
            i <= n,
            n == records@.len(),
            forall|p: int, q: int|
                0 <= p < q < names@.len() ==> #[trigger] names@[p]@ != #[trigger] names@[q]@,
            forall|k: int|
                0 <= k < names@.len() ==> window_names(records@, center as int).contains(
                    #[trigger] names@[k]@,
                ),
            forall|j: int|
                0 <= j < i && in_window(center as int, #[trigger] records@[j].created_at as int)
                    ==> exists|k: int|
                    0 <= k < names@.len() && #[trigger] names@[k]@ == records@[j].display_name@,
        decreases n - i,
    {
        let ghost pre = names@;
        let in_w = joined_in_window(records[i].created_at, center);
        if in_w {
            let present = contains_name(&names, &records[i].display_name);
            if !present {
                names.push(records[i].display_name.clone());
                assert(names@[names@.len() - 1]@ == records@[i as int].display_name@);
                assert(forall|k: int| 0 <= k < pre.len() ==> #[trigger] names@[k]@ == pre[k]@);
                assert(window_names(records@, center as int).contains(names@[names@.len() - 1]@));
            }
        }
        proof {
            assert forall|j: int|
                0 <= j < i + 1 && in_window(center as int, #[trigger] records@[j].created_at as int)
                implies exists|k: int|
                0 <= k < names@.len() && #[trigger] names@[k]@ == records@[j].display_name@ by {
                if j < i {
                    let k = choose|k: int|
                        0 <= k < pre.len() && #[trigger] pre[k]@ == records@[j].display_name@;
                    assert(names@[k]@ == records@[j].display_name@);
                } else {
                    if names@.len() > pre.len() {
                        assert(names@[names@.len() - 1]@ == records@[j].display_name@);
                    } else {
                        let k = choose|k: int|
                            0 <= k < pre.len() && #[trigger] pre[k]@ == records@[i as int].display_name@;
                        assert(names@[k]@ == records@[j].display_name@);
                    }
                }
            }
        }
        i += 1;
    }
    assert forall|n2: Seq<char>| #[trigger] window_names(records@, center as int).contains(n2)
        implies exists|k: int| 0 <= k < names@.len() && #[trigger] names@[k]@ == n2 by {
        let j = choose|j: int|
            0 <= j < records@.len() && #[trigger] records@[j].display_name@ == n2 && in_window(
                center as int,
                records@[j].created_at as int,
            );
        assert(0 <= j < n && in_window(center as int, records@[j].created_at as int));
    }
    names
}

/// Applies one correlation window to the ledger: every distinct name
/// joined inside it is charged exactly one hit.
pub fn apply_window(ledger: &mut SuspicionLedger, records: &Vec<UserData>, center: u64)
    requires
        old(ledger).wf(),
    ensures
        final(ledger).wf(),
        final(ledger)@ == bumped(old(ledger)@, window_names(records@, center as int)),
{
    let names = names_in_window(records, center);
    let ghost w = window_names(records@, center as int);
    let ghost m0 = ledger@;
    let count = names.len();
    let mut k: usize = 0;
    proof {
        lemma_bumped_empty(m0);
        assert(name_prefix_set(names@, 0) =~= Set::empty());
    }
    while k < count
        invariant
            k <= count,
            count == names@.len(),
            ledger.wf(),
            ledger@ =~= bumped(m0, name_prefix_set(names@, k as int)),
            forall|p: int, q: int|
                0 <= p < q < names@.len() ==> #[trigger] names@[p]@ != #[trigger] names@[q]@,
        decreases count - k,
    {
        let ghost s_old = name_prefix_set(names@, k as int);
        let ghost nk = names@[k as int]@;
        proof {
            assert(!s_old.contains(nk)) by {
                assert forall|j: int| 0 <= j < k implies #[trigger] names@[j]@ != nk by {
                    assert(names@[j]@ != names@[k as int]@);
                }
            }
            assert(count_of(ledger@, nk) == count_of(m0, nk)) by {
                lemma_window_counts(m0, records@, center as int, nk);
                assert(ledger@ =~= bumped(m0, s_old));
            }
            lemma_bumped_insert(m0, s_old, nk);
        }
        ledger.increment(&names[k]);
        proof {
            assert(s_old.insert(nk) =~= name_prefix_set(names@, k as int + 1)) by {
                assert forall|n2: Seq<char>| name_prefix_set(names@, k as int + 1).contains(n2)
                    implies s_old.insert(nk).contains(n2) by {
                    let j = choose|j: int| 0 <= j < k as int + 1 && #[trigger] names@[j]@ == n2;
                    if j < k as int {
                        assert(s_old.contains(n2));
                    }
                }
            }
        }
        k += 1;
    }
    proof {
        assert(name_prefix_set(names@, count as int) =~= w) by {
            assert forall|n2: Seq<char>| name_prefix_set(names@, count as int).contains(n2)
                implies w.contains(n2) by {
                let j = choose|j: int| 0 <= j < count as int && #[trigger] names@[j]@ == n2;
                assert(w.contains(names@[j]@));
            }
        }
    }
}

/// The ledger state after correlating one theft event: one window
/// around the creation time, and one around the last update when that
/// timestamp exists; the two windows are independent.
pub open spec fn after_event(
    m: Map<Seq<char>, nat>,
    records: Seq<UserData>,
    e: TheftEvent,
) -> Map<Seq<char>, nat> {
    let m1 = bumped(m, window_names(records, e.created_at as int));
    match e.last_updated {
        Some(u) => bumped(m1, window_names(records, u as int)),
        None => m1,
    }
}

/// Correlates a single theft event against the presence log.
pub fn correlate_event(ledger: &mut SuspicionLedger, records: &Vec<UserData>, event: &TheftEvent)
    requires
        old(ledger).wf(),
    ensures
        final(ledger).wf(),
        final(ledger)@ == after_event(old(ledger)@, records@, *event),
{
    apply_window(ledger, records, event.created_at);
    match event.last_updated {
        Some(u) => {
            apply_window(ledger, records, u);
        },
        None => {},
    }
}

/// The ledger state after correlating a whole scan's events in order.
pub open spec fn after_pass(
    m: Map<Seq<char>, nat>,
    records: Seq<UserData>,
    events: Seq<TheftEvent>,
) -> Map<Seq<char>, nat>
    decreases events.len(),
{
    if events.len() == 0 {
        m
    } else {
        after_event(after_pass(m, records, events.drop_last()), records, events.last())
    }
}

/// The ledger state produced by one invocation of the full correlation
/// pass when the scan-complete marker reads `done`: a set marker skips
/// the pass outright.
pub open spec fn pass_ledger(
    m: Map<Seq<char>, nat>,
    done: bool,
    records: Seq<UserData>,
    events: Seq<TheftEvent>,
) -> Map<Seq<char>, nat> {
    if done {
        m
    } else {
        after_pass(m, records, events)
    }
}

/// Runs the full correlation pass unless the scan-complete marker is
/// already set, and reports the marker as set afterwards.  Both windows
/// of every event land before the marker is reported set.
pub fn run_correlation_pass(
    ledger: &mut SuspicionLedger,
    scan_done: bool,
    events: &Vec<TheftEvent>,
    records: &Vec<UserData>,
) -> (done: bool)
    requires
        old(ledger).wf(),
    ensures
        final(ledger).wf(),
        done,
        final(ledger)@ == pass_ledger(old(ledger)@, scan_done, records@, events@),
{
    if scan_done {
        return true;
    }
    let ghost m0 = ledger@;
    let count = events.len();
    let mut k: usize = 0;
    proof {
        assert(events@.take(0) =~= Seq::<TheftEvent>::empty());
    }
    while k < count
        invariant
            k <= count,
            count == events@.len(),
            ledger.wf(),
            ledger@ == after_pass(m0, records@, events@.take(k as int)),
        decreases count - k,
    {
        correlate_event(ledger, records, &events[k]);
        proof {
            assert(events@.take(k as int + 1).drop_last() =~= events@.take(k as int));
            assert(events@.take(k as int + 1).last() == events@[k as int]);
        }
        k += 1;
    }
    proof {
        assert(events@.take(count as int) =~= events@);
    }
    true
}

/// One correlated event can only raise a name's count.
pub proof fn lemma_event_monotone(
    m: Map<Seq<char>, nat>,
    records: Seq<UserData>,
    e: TheftEvent,
    name: Seq<char>,
)
    ensures
        count_of(after_event(m, records, e), name) >= count_of(m, name),
{
}

/// A whole correlation pass can only raise a name's count: the ledger
/// is monotone under correlation, and only an administrative reset
/// lowers it.
pub proof fn lemma_pass_monotone(
    m: Map<Seq<char>, nat>,
    records: Seq<UserData>,
    events: Seq<TheftEvent>,
    name: Seq<char>,
)
    ensures
        count_of(after_pass(m, records, events), name) >= count_of(m, name),
    decreases events.len(),
{
    if events.len() > 0 {
        lemma_pass_monotone(m, records, events.drop_last(), name);
        lemma_event_monotone(after_pass(m, records, events.drop_last()), records, events.last(), name);
    }
}

/// Re-running the full correlation pass with the scan-complete marker
/// already set leaves the ledger exactly as the first run left it: the
/// skip is a no-op on the counts.
pub proof fn lemma_rerun_after_checkpoint(
    m: Map<Seq<char>, nat>,
    done: bool,
    records: Seq<UserData>,
    events: Seq<TheftEvent>,
)
    ensures
        pass_ledger(pass_ledger(m, done, records, events), true, records, events) == pass_ledger(
            m,
            done,
            records,
            events,
        ),
{
}

} // verus!
