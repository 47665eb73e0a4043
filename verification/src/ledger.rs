//! The suspicion ledger: a persisted mapping from display name to a
//! non-negative hit count, the single source of truth for who is
//! suspected.
//!
//! The ledger is modelled as a `Map<Seq<char>, nat>`; an absent name
//! counts zero.  Counts only grow (by [`SuspicionLedger::increment`]),
//! except for an explicit administrative reset, which callers perform by
//! starting from [`SuspicionLedger::new`].

use vstd::prelude::*;

use crate::structs::RipperData;

verus! {

/// The hit count a count map assigns to a name; names outside the
/// domain count zero.
pub open spec fn count_of(m: Map<Seq<char>, nat>, name: Seq<char>) -> nat {
    if m.dom().contains(name) {
        m[name]
    } else {
        0
    }
}

/// One hit more, saturating at the capacity of the stored counter.
pub open spec fn bump(c: nat) -> nat {
    if c < u64::MAX {
        (c + 1) as nat
    } else {
        c
    }
}

/// The names of a sequence of ledger entries, in order.
pub open spec fn entry_names(s: Seq<RipperData>) -> Seq<Seq<char>> {
    s.map_values(|r: RipperData| r.name@)
}

/// The count map that a sequence of ledger entries denotes.  With
/// duplicate-free names the later-entry-wins order of the inserts is
/// irrelevant.
pub open spec fn ledger_map(s: Seq<RipperData>) -> Map<Seq<char>, nat>
    decreases s.len(),
{
    if s.len() == 0 {
        Map::empty()
    } else {
        ledger_map(s.drop_last()).insert(s.last().name@, s.last().count as nat)
    }
}

/// A name is in the denoted map exactly when some entry carries it.
pub proof fn lemma_ledger_map_dom(s: Seq<RipperData>)
    ensures
        forall|n: Seq<char>|
            ledger_map(s).dom().contains(n) <==> exists|i: int|
                0 <= i < s.len() && #[trigger] s[i].name@ == n,
    decreases s.len(),
{
    if s.len() > 0 {
        lemma_ledger_map_dom(s.drop_last());
        assert forall|n: Seq<char>| ledger_map(s).dom().contains(n) implies exists|i: int|
            0 <= i < s.len() && #[trigger] s[i].name@ == n by {
            if n == s.last().name@ {
                assert(s[s.len() - 1].name@ == n);
            } else {
                assert(ledger_map(s.drop_last()).dom().contains(n));
                let i = choose|i: int|
                    0 <= i < s.drop_last().len() && #[trigger] s.drop_last()[i].name@ == n;
                assert(s.drop_last()[i] == s[i]);
                assert(s[i].name@ == n);
            }
        }
        assert forall|n: Seq<char>|
            (exists|i: int| 0 <= i < s.len() && #[trigger] s[i].name@ == n) implies ledger_map(
            s,
        ).dom().contains(n) by {
            let i = choose|i: int| 0 <= i < s.len() && #[trigger] s[i].name@ == n;
            if i < s.len() - 1 {
                assert(s.drop_last()[i].name@ == n);
                assert(ledger_map(s.drop_last()).dom().contains(n));
            } else {
                assert(n == s.last().name@);
            }
        }
    }
}

/// With duplicate-free names, each entry's count is its name's value in
/// the denoted map.
pub proof fn lemma_ledger_map_index(s: Seq<RipperData>, i: int)
    requires
        entry_names(s).no_duplicates(),
        0 <= i < s.len(),
    ensures
        ledger_map(s).dom().contains(s[i].name@),
        ledger_map(s)[s[i].name@] == s[i].count as nat,
    decreases s.len(),
{
    if i == s.len() - 1 {
    } else {
        assert(entry_names(s.drop_last()) =~= entry_names(s).drop_last());
        assert(entry_names(s).no_duplicates() ==> entry_names(s).drop_last().no_duplicates());
        lemma_ledger_map_index(s.drop_last(), i);
        assert(entry_names(s)[i] != entry_names(s)[s.len() - 1]);
        assert(s[i].name@ != s.last().name@);
    }
}

/// Replacing one entry by another with the same name re-binds just that
/// name in the denoted map.
pub proof fn lemma_ledger_map_update(s: Seq<RipperData>, i: int, r: RipperData)
    requires
        entry_names(s).no_duplicates(),
        0 <= i < s.len(),
        r.name@ == s[i].name@,
    ensures
        ledger_map(s.update(i, r)) =~= ledger_map(s).insert(r.name@, r.count as nat),
    decreases s.len(),
{
    if i == s.len() - 1 {
        assert(s.update(i, r).drop_last() =~= s.drop_last());
        assert(s.update(i, r).last() == r);
    } else {
        assert(entry_names(s.drop_last()) =~= entry_names(s).drop_last());
        lemma_ledger_map_update(s.drop_last(), i, r);
        assert(s.update(i, r).drop_last() =~= s.drop_last().update(i, r));
        assert(s.update(i, r).last() == s.last());
        assert(entry_names(s)[i] != entry_names(s)[s.len() - 1]);
        assert(r.name@ != s.last().name@);
    }
}

/// The persisted suspicion ledger.  Well-formed ledgers carry each name
/// at most once, so the entry list and the count map say the same
/// thing.
pub struct SuspicionLedger {
    pub entries: Vec<RipperData>,
}

impl View for SuspicionLedger {
    type V = Map<Seq<char>, nat>;

    open spec fn view(&self) -> Map<Seq<char>, nat> {
        ledger_map(self.entries@)
    }
}

impl SuspicionLedger {
    /// Each display name appears in at most one entry.
    pub open spec fn wf(&self) -> bool {
        entry_names(self.entries@).no_duplicates()
    }

    /// An empty ledger: the administrative reset state.
    pub fn new() -> (r: SuspicionLedger)
        ensures
            r.wf(),
            r@ == Map::<Seq<char>, nat>::empty(),
    {
        SuspicionLedger { entries: Vec::new() }
    }

    /// Validates entries read back from stable storage; a list that
    /// names one user twice is corrupt and refused.
    pub fn from_entries(entries: Vec<RipperData>) -> (r: Option<SuspicionLedger>)
        ensures
            r is Some <==> entry_names(entries@).no_duplicates(),
            r is Some ==> r->Some_0.entries@ == entries@ && r->Some_0.wf(),
    {
        let n = entries.len();
        let mut i: usize = 0;
        while i < n
            invariant
                i <= n,
                n == entries@.len(),
                forall|p: int, q: int|
                    0 <= p < q < i ==> #[trigger] entries@[p].name@ != #[trigger] entries@[q].name@,
            decreases n - i,
        {
            let mut j: usize = 0;
            while j < i
                invariant
                    j <= i < n,
                    n == entries@.len(),
                    forall|p: int| 0 <= p < j ==> #[trigger] entries@[p].name@ != entries@[i as int].name@,
                decreases i - j,
            {
                if entries[j].name == entries[i].name {
                    assert(!entry_names(entries@).no_duplicates()) by {
                        assert(entry_names(entries@)[j as int] == entry_names(entries@)[i as int]);
                    }
                    return None;
                }
                j += 1;
            }
            i += 1;
        }
        assert(entry_names(entries@).no_duplicates()) by {
            assert(forall|p: int, q: int|
                0 <= p < q < entries@.len() ==> #[trigger] entries@[p].name@ != #[trigger] entries@[q].name@);
            assert forall|p: int, q: int|
                0 <= p < entries@.len() && 0 <= q < entries@.len() && p != q implies #[trigger] entry_names(
                entries@,
            )[p] != #[trigger] entry_names(entries@)[q] by {
                if p < q {
                    assert(entries@[p].name@ != entries@[q].name@);
                } else {
                    assert(entries@[q].name@ != entries@[p].name@);
                }
            }
        }
        Some(SuspicionLedger { entries })
    }

    /// The persisted entry list, for callers that write the ledger out
    /// or print a summary.
    pub fn get_all(&self) -> (r: &Vec<RipperData>)
        ensures
            r@ == self.entries@,
    {
        &self.entries
    }

    /// The index of the entry carrying `name`, if any.
    fn find_entry(&self, name: &String) -> (r: Option<usize>)
        ensures
            match r {
                Some(i) => i < self.entries@.len() && self.entries@[i as int].name@ == name@,
                None => forall|i: int|
                    0 <= i < self.entries@.len() ==> #[trigger] self.entries@[i].name@ != name@,
            },
    {
        let n = self.entries.len();
        let mut i: usize = 0;
        while i < n
            invariant
                i <= n,
                n == self.entries@.len(),
                forall|k: int| 0 <= k < i ==> #[trigger] self.entries@[k].name@ != name@,
            decreases n - i,
        {
            if self.entries[i].name == *name {
                return Some(i);
            }
            i += 1;
        }
        None
    }

    /// The current hit count of a name; zero when the name has no
    /// entry.
    pub fn get_count(&self, name: &String) -> (c: u64)
        requires
            self.wf(),
        ensures
            c as nat == count_of(self@, name@),
    {
        match self.find_entry(name) {
            Some(i) => {
                proof {
                    lemma_ledger_map_index(self.entries@, i as int);
                }
                self.entries[i].count
            },
            None => {
                proof {
                    lemma_ledger_map_dom(self.entries@);
                }
                0
            },
        }
    }

    /// One correlation hit for `name`: an absent name starts at zero
    /// and is charged one; the write-through to stable storage is the
    /// caller's next step.
    pub fn increment(&mut self, name: &String)
        requires
            old(self).wf(),
        ensures
            final(self).wf(),
            final(self)@ == old(self)@.insert(name@, bump(count_of(old(self)@, name@))),
    {
        match self.find_entry(name) {
            Some(i) => {
                proof {
                    lemma_ledger_map_index(self.entries@, i as int);
                }
                let fresh = RipperData {
                    name: self.entries[i].name.clone(),
                    count: self.entries[i].count.saturating_add(1),
                };
                proof {
                    lemma_ledger_map_update(self.entries@, i as int, fresh);
                }
                self.entries.set(i, fresh);
                assert(entry_names(self.entries@) =~= entry_names(old(self).entries@));
            },
            None => {
                proof {
                    lemma_ledger_map_dom(self.entries@);
                }
                let fresh = RipperData { name: name.clone(), count: 1 };
                let ghost before = self.entries@;
                self.entries.push(fresh);
                assert(self.entries@.drop_last() =~= before);
                proof {
                    let ns = entry_names(self.entries@);
                    let last = ns.len() - 1;
                    assert(forall|k: int| 0 <= k < last ==> #[trigger] ns[k] == entry_names(before)[k]);
                    assert(ns[last] == name@);
                    assert forall|p: int, q: int|
                        0 <= p < ns.len() && 0 <= q < ns.len() && p != q implies #[trigger] ns[p]
                        != #[trigger] ns[q] by {
                        if p < last && q < last {
                            assert(entry_names(before)[p] != entry_names(before)[q]);
                        } else if p == last {
                            assert(ns[q] == before[q].name@);
                            assert(before[q].name@ != name@);
                        } else {
                            assert(ns[p] == before[p].name@);
                            assert(before[p].name@ != name@);
                        }
                    }
                }
            },
        }
    }
}

} // verus!
