//! The identity mapping and the resumable backfill resolver.
//!
//! The mapping attaches a stable platform user id to every display name
//! the presence log knows.  The backfill pass walks the log once, skips
//! names already mapped, deduplicates the rest within the run, and
//! records each successful lookup immediately, so partial progress
//! survives a crash.  Names whose lookup fails stay unmapped and are
//! picked up again by the next pass, because the pass-level checkpoint
//! is only set on full success.

use vstd::prelude::*;

use crate::structs::UserData;

verus! {

/// The display names of a list of mapping entries, in order.
pub open spec fn mapping_names(s: Seq<UserData>) -> Seq<Seq<char>> {
    s.map_values(|u: UserData| u.display_name@)
}

/// The mapping that a list of entries denotes, keyed by display name.
pub open spec fn mapping_map(s: Seq<UserData>) -> Map<Seq<char>, UserData>
    decreases s.len(),
{
    if s.len() == 0 {
        Map::empty()
    } else {
        mapping_map(s.drop_last()).insert(s.last().display_name@, s.last())
    }
}

/// The identity a mapping knows for a name: the stored entry's, or
/// nothing for an unmapped name.
pub open spec fn id_for(m: Map<Seq<char>, UserData>, n: Seq<char>) -> Option<String> {
    if m.dom().contains(n) {
        m[n].user_id
    } else {
        None
    }
}

/// The distinct display names occurring in a presence log.
pub open spec fn record_names(records: Seq<UserData>) -> Set<Seq<char>> {
    Set::new(
        |n: Seq<char>|
            exists|i: int| 0 <= i < records.len() && #[trigger] records[i].display_name@ == n,
    )
}

/// The names a backfill pass still has to resolve: present in the log,
/// absent from the mapping.
pub open spec fn unresolved_names(records: Seq<UserData>, mapped: Set<Seq<char>>) -> Set<
    Seq<char>,
> {
    record_names(records).difference(mapped)
}

/// A name is in the denoted mapping exactly when some entry carries it.
pub proof fn lemma_mapping_map_dom(s: Seq<UserData>)
    ensures
        forall|n: Seq<char>|
            mapping_map(s).dom().contains(n) <==> exists|i: int|
                0 <= i < s.len() && #[trigger] s[i].display_name@ == n,
    decreases s.len(),
{
    if s.len() > 0 {
        lemma_mapping_map_dom(s.drop_last());
        assert forall|n: Seq<char>| mapping_map(s).dom().contains(n) implies exists|i: int|
            0 <= i < s.len() && #[trigger] s[i].display_name@ == n by {
            if n == s.last().display_name@ {
                assert(s[s.len() - 1].display_name@ == n);
            } else {
                assert(mapping_map(s.drop_last()).dom().contains(n));
                let i = choose|i: int|
                    0 <= i < s.drop_last().len() && #[trigger] s.drop_last()[i].display_name@ == n;
                assert(s.drop_last()[i] == s[i]);
                assert(s[i].display_name@ == n);
            }
        }
        assert forall|n: Seq<char>|
            (exists|i: int| 0 <= i < s.len() && #[trigger] s[i].display_name@ == n) implies mapping_map(
            s,
        ).dom().contains(n) by {
            let i = choose|i: int| 0 <= i < s.len() && #[trigger] s[i].display_name@ == n;
            if i < s.len() - 1 {
                assert(s.drop_last()[i].display_name@ == n);
                assert(mapping_map(s.drop_last()).dom().contains(n));
            } else {
                assert(n == s.last().display_name@);
            }
        }
    }
}

/// With duplicate-free names, each entry is its name's value in the
/// denoted mapping.
pub proof fn lemma_mapping_map_index(s: Seq<UserData>, i: int)
    requires
        mapping_names(s).no_duplicates(),
        0 <= i < s.len(),
    ensures
        mapping_map(s).dom().contains(s[i].display_name@),
        mapping_map(s)[s[i].display_name@] == s[i],
    decreases s.len(),
{
    if i == s.len() - 1 {
    } else {
        assert(mapping_names(s.drop_last()) =~= mapping_names(s).drop_last());
        lemma_mapping_map_index(s.drop_last(), i);
        assert(mapping_names(s)[i] != mapping_names(s)[s.len() - 1]);
        assert(s[i].display_name@ != s.last().display_name@);
    }
}

/// Replacing one entry by another with the same name re-binds just that
/// name.
pub proof fn lemma_mapping_map_update(s: Seq<UserData>, i: int, u: UserData)
    requires
        mapping_names(s).no_duplicates(),
        0 <= i < s.len(),
        u.display_name@ == s[i].display_name@,
    ensures
        mapping_map(s.update(i, u)) =~= mapping_map(s).insert(u.display_name@, u),
    decreases s.len(),
{
    if i == s.len() - 1 {
        assert(s.update(i, u).drop_last() =~= s.drop_last());
        assert(s.update(i, u).last() == u);
    } else {
        assert(mapping_names(s.drop_last()) =~= mapping_names(s).drop_last());
        lemma_mapping_map_update(s.drop_last(), i, u);
        assert(s.update(i, u).drop_last() =~= s.drop_last().update(i, u));
        assert(s.update(i, u).last() == s.last());
        assert(mapping_names(s)[i] != mapping_names(s)[s.len() - 1]);
        assert(u.display_name@ != s.last().display_name@);
    }
}

/// The persisted identity mapping: display name to platform identity,
/// unique by name, entries never deleted.
pub struct IdentityMapping {
    pub entries: Vec<UserData>,
}

impl View for IdentityMapping {
    type V = Map<Seq<char>, UserData>;

    open spec fn view(&self) -> Map<Seq<char>, UserData> {
        mapping_map(self.entries@)
    }
}

impl IdentityMapping {
    /// Each display name has at most one entry.
    pub open spec fn wf(&self) -> bool {
        mapping_names(self.entries@).no_duplicates()
    }

    /// The set of mapped display names.
    pub open spec fn names(&self) -> Set<Seq<char>> {
        self@.dom()
    }

    /// An empty mapping.
    pub fn new() -> (r: IdentityMapping)
        ensures
            r.wf(),
            r@ == Map::<Seq<char>, UserData>::empty(),
    {
        IdentityMapping { entries: Vec::new() }
    }

    /// Validates entries read back from stable storage; a list that
    /// maps one name twice is corrupt and refused.
    pub fn from_entries(entries: Vec<UserData>) -> (r: Option<IdentityMapping>)
        ensures
            r is Some <==> mapping_names(entries@).no_duplicates(),
            r is Some ==> r->Some_0.entries@ == entries@ && r->Some_0.wf(),
    {
        let n = entries.len();
        let mut i: usize = 0;
        while i < n
            invariant
                i <= n,
                n == entries@.len(),
                forall|p: int, q: int|
                    0 <= p < q < i ==> #[trigger] entries@[p].display_name@
                        != #[trigger] entries@[q].display_name@,
            decreases n - i,
        {
            let mut j: usize = 0;
            while j < i
                invariant
                    j <= i < n,
                    n == entries@.len(),
                    forall|p: int|
                        0 <= p < j ==> #[trigger] entries@[p].display_name@
                            != entries@[i as int].display_name@,
                decreases i - j,
            {
                if entries[j].display_name == entries[i].display_name {
                    assert(!mapping_names(entries@).no_duplicates()) by {
                        assert(mapping_names(entries@)[j as int] == mapping_names(entries@)[
                            i as int
                        ]);
                    }
                    return None;
                }
                j += 1;
            }
            i += 1;
        }
        assert(mapping_names(entries@).no_duplicates()) by {
            assert forall|p: int, q: int|
                0 <= p < entries@.len() && 0 <= q < entries@.len() && p
                    != q implies #[trigger] mapping_names(entries@)[p] != #[trigger] mapping_names(
                entries@,
            )[q] by {
                if p < q {
                    assert(entries@[p].display_name@ != entries@[q].display_name@);
                } else {
                    assert(entries@[q].display_name@ != entries@[p].display_name@);
                }
            }
        }
        Some(IdentityMapping { entries })
    }

    /// The persisted entry list, for callers that write the mapping out.
    pub fn get_all(&self) -> (r: &Vec<UserData>)
        ensures
            r@ == self.entries@,
    {
        &self.entries
    }

    /// The index of the entry carrying `name`, if any.
    fn find_entry(&self, name: &String) -> (r: Option<usize>)
        ensures
            match r {
                Some(i) => i < self.entries@.len() && self.entries@[i as int].display_name@
                    == name@,
                None => forall|i: int|
                    0 <= i < self.entries@.len() ==> #[trigger] self.entries@[i].display_name@
                        != name@,
            },
    {
        let n = self.entries.len();
        let mut i: usize = 0;
        while i < n
            invariant
                i <= n,
                n == self.entries@.len(),
                forall|k: int| 0 <= k < i ==> #[trigger] self.entries@[k].display_name@ != name@,
            decreases n - i,
        {
            if self.entries[i].display_name == *name {
                return Some(i);
            }
            i += 1;
        }
        None
    }

    /// Whether a display name is already mapped.
    pub fn contains_name(&self, name: &String) -> (r: bool)
        ensures
            r == self.names().contains(name@),
    {
        proof {
            lemma_mapping_map_dom(self.entries@);
        }
        match self.find_entry(name) {
            Some(_) => true,
            None => false,
        }
    }

    /// The platform identity stored for `name`: the mapped entry's, or
    /// nothing for an unmapped name.
    pub fn lookup_id(&self, name: &String) -> (r: Option<String>)
        requires
            self.wf(),
        ensures
            r == id_for(self@, name@),
    {
        match self.find_entry(name) {
            Some(i) => {
                proof {
                    lemma_mapping_map_index(self.entries@, i as int);
                }
                match &self.entries[i].user_id {
                    Some(id) => Some(id.clone()),
                    None => None,
                }
            },
            None => {
                proof {
                    lemma_mapping_map_dom(self.entries@);
                }
                None
            },
        }
    }

    /// Records one resolved identity, appending on first encounter and
    /// overwriting by key on a re-encounter; the write-through to
    /// stable storage is the caller's next step.
    pub fn record_identity(&mut self, entry: UserData)
        requires
            old(self).wf(),
        ensures
            final(self).wf(),
            final(self)@ == old(self)@.insert(entry.display_name@, entry),
    {
        let name_probe = entry.display_name.clone();
        match self.find_entry(&name_probe) {
            Some(i) => {
                proof {
                    lemma_mapping_map_update(self.entries@, i as int, entry);
                }
                self.entries.set(i, entry);
                assert(mapping_names(self.entries@) =~= mapping_names(old(self).entries@));
            },
            None => {
                proof {
                    lemma_mapping_map_dom(self.entries@);
                }
                let ghost before = self.entries@;
                self.entries.push(entry);
                assert(self.entries@.drop_last() =~= before);
                proof {
                    let ns = mapping_names(self.entries@);
                    let last = ns.len() - 1;
                    assert(forall|k: int|
                        0 <= k < last ==> #[trigger] ns[k] == mapping_names(before)[k]);
                    assert(ns[last] == entry.display_name@);
                    assert forall|p: int, q: int|
                        0 <= p < ns.len() && 0 <= q < ns.len() && p != q implies #[trigger] ns[p]
                        != #[trigger] ns[q] by {
                        if p < last && q < last {
                            assert(mapping_names(before)[p] != mapping_names(before)[q]);
                        } else if p == last {
                            assert(ns[q] == before[q].display_name@);
                            assert(before[q].display_name@ != entry.display_name@);
                        } else {
                            assert(ns[p] == before[p].display_name@);
                            assert(before[p].display_name@ != entry.display_name@);
                        }
                    }
                }
            },
        }
    }
}

/// Collects the names a backfill pass must still resolve: every
/// distinct display name of the log that the mapping does not know,
/// each once, and nothing else.
pub fn names_to_resolve(records: &Vec<UserData>, mapping: &IdentityMapping) -> (todo: Vec<String>)
    requires
        mapping.wf(),
    ensures
        forall|p: int, q: int|
            0 <= p < q < todo@.len() ==> #[trigger] todo@[p]@ != #[trigger] todo@[q]@,
        forall|k: int|
            0 <= k < todo@.len() ==> unresolved_names(records@, mapping.names()).contains(
                #[trigger] todo@[k]@,
            ),
        forall|n: Seq<char>|
            #[trigger] unresolved_names(records@, mapping.names()).contains(n) ==> exists|k: int|
                0 <= k < todo@.len() && #[trigger] todo@[k]@ == n,
{
    let n = records.len();
    let mut todo: Vec<String> = Vec::new();
    let mut i: usize = 0;
    while i < n
        invariant
            i <= n,
            n == records@.len(),
            mapping.wf(),
            forall|p: int, q: int|
                0 <= p < q < todo@.len() ==> #[trigger] todo@[p]@ != #[trigger] todo@[q]@,
            forall|k: int|
                0 <= k < todo@.len() ==> unresolved_names(records@, mapping.names()).contains(
                    #[trigger] todo@[k]@,
                ),
            forall|j: int|
                0 <= j < i && !mapping.names().contains(#[trigger] records@[j].display_name@)
                    ==> exists|k: int|
                    0 <= k < todo@.len() && #[trigger] todo@[k]@ == records@[j].display_name@,
        decreases n - i,
    {
        let ghost pre = todo@;
        let mapped = mapping.contains_name(&records[i].display_name);
        if !mapped {
            let present = crate::correlate::contains_name(&todo, &records[i].display_name);
            if !present {
                todo.push(records[i].display_name.clone());
                assert(todo@[todo@.len() - 1]@ == records@[i as int].display_name@);
                assert(forall|k: int| 0 <= k < pre.len() ==> #[trigger] todo@[k]@ == pre[k]@);
                assert(record_names(records@).contains(todo@[todo@.len() - 1]@));
            }
        }
        proof {
            assert forall|j: int|
                0 <= j < i + 1 && !mapping.names().contains(#[trigger] records@[j].display_name@)
                implies exists|k: int|
                0 <= k < todo@.len() && #[trigger] todo@[k]@ == records@[j].display_name@ by {
                if j < i {
                    let k = choose|k: int|
                        0 <= k < pre.len() && #[trigger] pre[k]@ == records@[j].display_name@;
                    assert(todo@[k]@ == records@[j].display_name@);
                } else {
                    if todo@.len() > pre.len() {
                        assert(todo@[todo@.len() - 1]@ == records@[j].display_name@);
                    } else {
                        let k = choose|k: int|
                            0 <= k < pre.len() && #[trigger] pre[k]@ == records@[i as int].display_name@;
                        assert(todo@[k]@ == records@[j].display_name@);
                    }
                }
            }
        }
        i += 1;
    }
    assert forall|n2: Seq<char>| #[trigger] unresolved_names(records@, mapping.names()).contains(n2)
        implies exists|k: int| 0 <= k < todo@.len() && #[trigger] todo@[k]@ == n2 by {
        let j = choose|j: int|
            0 <= j < records@.len() && #[trigger] records@[j].display_name@ == n2;
        assert(0 <= j < n && !mapping.names().contains(records@[j].display_name@));
    }
    todo
}

/// The pass-level checkpoint is earned only by a pass in which every
/// name resolved; any failure leaves the checkpoint clear so the next
/// run retries the names still missing.
pub fn backfill_complete(failed_lookups: u64) -> (r: bool)
    ensures
        r == (failed_lookups == 0),
{
    failed_lookups == 0
}

/// Restarting an interrupted backfill pass attacks exactly the names
/// still missing: what the interrupted pass already recorded is
/// skipped, and nothing else is dropped.
pub proof fn lemma_backfill_restart(
    records: Seq<UserData>,
    mapped: Set<Seq<char>>,
    recorded: Set<Seq<char>>,
)
    ensures
        unresolved_names(records, mapped.union(recorded)) =~= unresolved_names(
            records,
            mapped,
        ).difference(recorded),
{
}

/// A well-formed mapping holds exactly one entry per mapped name, so
/// after a backfill pass completes the count of entries equals the
/// count of distinct display names that resolved.
pub proof fn lemma_mapping_count(m: IdentityMapping)
    requires
        m.wf(),
    ensures
        m.entries@.len() == m.names().len(),
{
    lemma_mapping_map_dom(m.entries@);
    let ns = mapping_names(m.entries@);
    assert(m.names() =~= ns.to_set()) by {
        assert forall|n: Seq<char>| #[trigger] m.names().contains(n) implies ns.to_set().contains(
            n,
        ) by {
            let i = choose|i: int|
                0 <= i < m.entries@.len() && #[trigger] m.entries@[i].display_name@ == n;
            assert(ns[i] == n);
        }
        assert forall|n: Seq<char>| #[trigger] ns.to_set().contains(n) implies m.names().contains(
            n,
        ) by {
            let i = choose|i: int| 0 <= i < ns.len() && ns[i] == n;
            assert(m.entries@[i].display_name@ == n);
        }
    }
    ns.unique_seq_to_set();
}

} // verus!
