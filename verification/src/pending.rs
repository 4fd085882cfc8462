//! The table of in-flight requests: each outstanding id maps to the single
//! waiter that must be woken by the matching response, by a timeout, or by
//! transport closure — exactly once.

use vstd::prelude::*;

verus! {

/// The map described by an association list, later entries shadowing
/// earlier ones.
pub open spec fn map_of<W>(s: Seq<(u64, W)>) -> Map<u64, W>
    decreases s.len(),
{
    if s.len() == 0 {
        Map::empty()
    } else {
        map_of(s.drop_last()).insert(s.last().0, s.last().1)
    }
}

/// No id occurs twice.
pub open spec fn distinct_ids<W>(s: Seq<(u64, W)>) -> bool {
    forall|i: int, j: int| 0 <= i < j < s.len() ==> (#[trigger] s[i]).0 != (#[trigger] s[j]).0
}

proof fn lemma_map_of_contains<W>(s: Seq<(u64, W)>, id: u64)
    ensures
        map_of(s).contains_key(id) <==> exists|i: int| 0 <= i < s.len() && (#[trigger] s[i]).0 == id,
    decreases s.len(),
{
    if s.len() > 0 {
        lemma_map_of_contains(s.drop_last(), id);
        if s.last().0 == id {
            assert((s[s.len() - 1]).0 == id);
        } else {
            if map_of(s).contains_key(id) {
                let i = choose|i: int| 0 <= i < s.drop_last().len() && (#[trigger] s.drop_last()[i]).0 == id;
                if map_of(s.drop_last()).contains_key(id) {
                    assert((s[i]).0 == id);
                }
            }
            if exists|i: int| 0 <= i < s.len() && (#[trigger] s[i]).0 == id {
                let i = choose|i: int| 0 <= i < s.len() && (#[trigger] s[i]).0 == id;
                assert(i < s.len() - 1);
                assert((s.drop_last()[i]).0 == id);
            }
        }
    }
}

proof fn lemma_map_of_value<W>(s: Seq<(u64, W)>, k: int)
    requires
        distinct_ids(s),
        0 <= k < s.len(),
    ensures
        map_of(s).contains_key(s[k].0),
        map_of(s)[s[k].0] == s[k].1,
    decreases s.len(),
{
    if k == s.len() - 1 {
    } else {
        assert(s.drop_last()[k] == s[k]);
        lemma_map_of_value(s.drop_last(), k);
        assert(s.last().0 != s[k].0);
    }
}

proof fn lemma_map_of_remove<W>(s: Seq<(u64, W)>, k: int)
    requires
        distinct_ids(s),
        0 <= k < s.len(),
    ensures
        map_of(s.remove(k)) == map_of(s).remove(s[k].0),
    decreases s.len(),
{
    let id = s[k].0;
    if k == s.len() - 1 {
        assert(s.remove(k) =~= s.drop_last());
        lemma_map_of_contains(s.drop_last(), id);
        assert(!map_of(s.drop_last()).contains_key(id)) by {
            if map_of(s.drop_last()).contains_key(id) {
                let i = choose|i: int|
                    0 <= i < s.drop_last().len() && (#[trigger] s.drop_last()[i]).0 == id;
                assert((s[i]).0 == id);
            }
        }
        assert(map_of(s).remove(id) =~= map_of(s.drop_last()));
    } else {
        let dl = s.drop_last();
        assert(s.remove(k).drop_last() =~= dl.remove(k));
        assert(s.remove(k).last() == s.last());
        assert(dl[k] == s[k]);
        lemma_map_of_remove(dl, k);
        assert(s.last().0 != id);
        assert(map_of(dl).remove(id).insert(s.last().0, s.last().1) =~= map_of(dl).insert(
            s.last().0,
            s.last().1,
        ).remove(id));
    }
}

proof fn lemma_map_of_len<W>(s: Seq<(u64, W)>)
    requires
        distinct_ids(s),
    ensures
        map_of(s).dom().finite(),
        map_of(s).dom().len() == s.len(),
    decreases s.len(),
{
    if s.len() > 0 {
        lemma_map_of_len(s.drop_last());
        lemma_map_of_contains(s.drop_last(), s.last().0);
        assert(!map_of(s.drop_last()).contains_key(s.last().0)) by {
            if map_of(s.drop_last()).contains_key(s.last().0) {
                let i = choose|i: int|
                    0 <= i < s.drop_last().len() && (#[trigger] s.drop_last()[i]).0 == s.last().0;
                assert((s[i]).0 == s.last().0);
            }
        }
        assert(map_of(s).dom() =~= map_of(s.drop_last()).dom().insert(s.last().0));
    } else {
        assert(map_of(s).dom() =~= Set::<u64>::empty());
    }
}

/// The pending-request table: one single-use waiter per outstanding id.
pub struct PendingTable<W> {
    entries: Vec<(u64, W)>,
}

impl<W> PendingTable<W> {
    /// The ids in flight and the waiter registered under each.
    pub closed spec fn pending(&self) -> Map<u64, W> {
        map_of(self.entries@)
    }

    /// Internal shape: no id occurs twice.
    pub closed spec fn well_formed(&self) -> bool {
        distinct_ids(self.entries@)
    }

    /// An empty table.
    pub fn new() -> (r: PendingTable<W>)
        ensures
            r.well_formed(),
            r.pending() == Map::<u64, W>::empty(),
    {
        PendingTable { entries: Vec::new() }
    }

    /// How many requests are in flight.
    pub fn len(&self) -> (n: usize)
        requires
            self.well_formed(),
        ensures
            n == self.pending().dom().len(),
            self.pending().dom().finite(),
    {
        proof {
            lemma_map_of_len(self.entries@);
        }
        self.entries.len()
    }

    /// Whether a request with this id is in flight.
    #[verifier::loop_isolation(false)]
    pub fn contains(&self, id: u64) -> (r: bool)
        ensures
            r == self.pending().contains_key(id),
    {
        proof {
            lemma_map_of_contains(self.entries@, id);
        }
        let mut i: usize = 0;
        while i < self.entries.len()
            invariant
                i <= self.entries@.len(),
                forall|j: int| 0 <= j < i ==> (#[trigger] self.entries@[j]).0 != id,
        decreases self.entries@.len() - i,
        {
            if self.entries[i].0 == id {
                return true;
            }
            i += 1;
        }
        false
    }

    /// Registers the waiter for a freshly allocated id.
    pub fn register(&mut self, id: u64, w: W)
        requires
            old(self).well_formed(),
            !old(self).pending().contains_key(id),
        ensures
            final(self).well_formed(),
            final(self).pending() == old(self).pending().insert(id, w),
    {
        proof {
            lemma_map_of_contains(self.entries@, id);
        }
        let ghost before = self.entries@;
        self.entries.push((id, w));
        proof {
            assert(self.entries@.drop_last() =~= before);
            assert(forall|i: int| 0 <= i < before.len() ==> (#[trigger] before[i]).0 != id);
        }
    }

    /// Takes the waiter for `id` out of the table: the matching response,
    /// the timeout path and transport closure all come through here, so a
    /// second caller finds the slot gone and gets nothing.
    #[verifier::loop_isolation(false)]
    pub fn resolve(&mut self, id: u64) -> (r: Option<W>)
        requires
            old(self).well_formed(),
        ensures
            final(self).well_formed(),
            match r {
                Some(_) => old(self).pending().contains_key(id) && r == Some(
                    old(self).pending()[id],
                ) && final(self).pending() == old(self).pending().remove(id),
                None => !old(self).pending().contains_key(id) && final(self).pending() == old(self).pending(),
            },
    {
        proof {
            lemma_map_of_contains(self.entries@, id);
        }
        let mut i: usize = 0;
        while i < self.entries.len()
            invariant
                self.entries@ == old(self).entries@,
                i <= self.entries@.len(),
                forall|j: int| 0 <= j < i ==> (#[trigger] self.entries@[j]).0 != id,
        decreases self.entries@.len() - i,
        {
            if self.entries[i].0 == id {
                let ghost before = self.entries@;
                proof {
                    lemma_map_of_value(before, i as int);
                    lemma_map_of_remove(before, i as int);
                }
                let entry = self.entries.remove(i);
                proof {
                    assert(forall|x: int|
                        0 <= x < before.remove(i as int).len() ==> #[trigger] before.remove(
                            i as int,
                        )[x] == (if x < i { before[x] } else { before[x + 1] }));
                }
                return Some(entry.1);
            }
            i += 1;
        }
        None
    }

    /// Empties the table, handing back every outstanding waiter so that
    /// transport closure can wake each of them once.
    pub fn drain(&mut self) -> (ws: Vec<(u64, W)>)
        requires
            old(self).well_formed(),
        ensures
            final(self).well_formed(),
            final(self).pending() == Map::<u64, W>::empty(),
            distinct_ids(ws@),
            map_of(ws@) == old(self).pending(),
    {
        let mut out: Vec<(u64, W)> = Vec::new();
        core::mem::swap(&mut out, &mut self.entries);
        out
    }
}

/// Out-of-order responses each wake the right waiter, exactly once: after
/// the response for `i` takes its waiter, the waiter for `j` is still there,
/// untouched, while a second response for `i` finds nothing — the slot
/// cannot be resolved twice.
pub proof fn lemma_resolution_exactly_once<W>(m: Map<u64, W>, i: u64, j: u64)
    requires
        m.contains_key(i),
        m.contains_key(j),
        i != j,
    ensures
        m.remove(i).contains_key(j),
        m.remove(i)[j] == m[j],
        !m.remove(i).contains_key(i),
{
}

/// A request that times out releases its table slot: registering a fresh id
/// and then resolving it — by response or by timeout — leaves the table
/// exactly as it was, so timing-out requests cannot leak slots.
pub proof fn lemma_timeout_releases_slot<W>(m: Map<u64, W>, id: u64, w: W)
    requires
        !m.contains_key(id),
    ensures
        m.insert(id, w).remove(id) == m,
{
    assert(m.insert(id, w).remove(id) =~= m);
}

} // verus!
