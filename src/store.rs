use vstd::prelude::*;

verus! {

/// Allocates the next identifier: returns the counter's value and advances it,
/// wrapping at the 64-bit boundary.
pub fn next_id(counter: &mut u64) -> (id: u64)
    ensures
        id == *old(counter),
        *final(counter) == next_counter(*old(counter)),
{
    let id = *counter;
    *counter = counter.wrapping_add(1);
    id
}

/// The counter's value after one allocation.
pub open spec fn next_counter(c: u64) -> u64 {
    if c == u64::MAX {
        0
    } else {
        (c + 1) as u64
    }
}

/// No two entries carry the same identifier.
pub open spec fn keys_unique<T>(s: Seq<(u64, T)>) -> bool {
    forall|i: int, j: int| 0 <= i < j < s.len() ==> s[i].0 != s[j].0
}

/// The mapping from identifier to record that a sequence of entries stands for.
pub open spec fn entries_map<T>(s: Seq<(u64, T)>) -> Map<u64, T>
    decreases s.len(),
{
    if s.len() == 0 {
        Map::empty()
    } else {
        entries_map(s.drop_last()).insert(s.last().0, s.last().1)
    }
}

proof fn lemma_entries_map_has<T>(s: Seq<(u64, T)>, i: int)
    requires
        keys_unique(s),
        0 <= i < s.len(),
    ensures
        entries_map(s).contains_key(s[i].0),
        entries_map(s)[s[i].0] == s[i].1,
    decreases s.len(),
{
    if i < s.len() - 1 {
        lemma_entries_map_has(s.drop_last(), i);
    }
}

proof fn lemma_entries_map_lacks<T>(s: Seq<(u64, T)>, k: u64)
    requires
        forall|i: int| 0 <= i < s.len() ==> s[i].0 != k,
    ensures
        !entries_map(s).contains_key(k),
    decreases s.len(),
{
    if s.len() > 0 {
        lemma_entries_map_lacks(s.drop_last(), k);
    }
}

proof fn lemma_entries_map_update<T>(s: Seq<(u64, T)>, i: int, v: T)
    requires
        keys_unique(s),
        0 <= i < s.len(),
    ensures
        entries_map(s.update(i, (s[i].0, v))) == entries_map(s).insert(s[i].0, v),
    decreases s.len(),
{
    let k = s[i].0;
    let u = s.update(i, (k, v));
    if i == s.len() - 1 {
        assert(u.drop_last() =~= s.drop_last());
        assert(entries_map(u) =~= entries_map(s).insert(k, v));
    } else {
        let t = s.drop_last();
        assert(u.drop_last() =~= t.update(i, (k, v)));
        lemma_entries_map_update(t, i, v);
        assert(entries_map(u) =~= entries_map(s).insert(k, v));
    }
}

proof fn lemma_entries_map_dom<T>(s: Seq<(u64, T)>, k: u64)
    requires
        entries_map(s).contains_key(k),
    ensures
        exists|i: int| 0 <= i < s.len() && s[i].0 == k,
    decreases s.len(),
{
    if s.last().0 != k {
        lemma_entries_map_dom(s.drop_last(), k);
        let i = choose|i: int| 0 <= i < s.drop_last().len() && s.drop_last()[i].0 == k;
        assert(s[i].0 == k);
    } else {
        assert(s[s.len() - 1].0 == k);
    }
}

/// A table of records keyed by identifier. Entries are enumerated in the order
/// in which their identifiers were first inserted; inserting under a present
/// identifier overwrites that entry in place.
pub struct RecordStore<T> {
    entries: Vec<(u64, T)>,
}

impl<T> RecordStore<T> {
    /// The stored entries, in enumeration order.
    pub closed spec fn entries(&self) -> Seq<(u64, T)> {
        self.entries@
    }

    pub open spec fn wf(&self) -> bool {
        keys_unique(self.entries())
    }

    /// The identifiers of the entries, in enumeration order.
    pub open spec fn keys(&self) -> Seq<u64> {
        self.entries().map_values(|e: (u64, T)| e.0)
    }

    /// The records, by identifier.
    pub open spec fn records(&self) -> Map<u64, T> {
        entries_map(self.entries())
    }

    /// The enumeration lists every stored identifier exactly once.
    pub proof fn lemma_keys_listed(&self)
        requires
            self.wf(),
        ensures
            self.keys().no_duplicates(),
            forall|k: u64| #[trigger] self.records().contains_key(k) <==> self.keys().contains(k),
    {
        assert forall|k: u64| #[trigger] self.records().contains_key(k) <==> self.keys().contains(
            k,
        ) by {
            if self.records().contains_key(k) {
                lemma_entries_map_dom(self.entries(), k);
                let i = choose|i: int| 0 <= i < self.entries().len() && self.entries()[i].0 == k;
                assert(self.keys()[i] == k);
            }
            if self.keys().contains(k) {
                let i = choose|i: int| 0 <= i < self.keys().len() && self.keys()[i] == k;
                lemma_entries_map_has(self.entries(), i);
            }
        }
    }

    pub fn new() -> (s: Self)
        ensures
            s.wf(),
            s.entries() == Seq::<(u64, T)>::empty(),
            s.records() == Map::<u64, T>::empty(),
    {
        RecordStore { entries: Vec::new() }
    }

    fn position(&self, id: u64) -> (r: Option<usize>)
        ensures
            match r {
                Some(i) => i < self.entries().len() && self.entries()[i as int].0 == id,
                None => forall|i: int| 0 <= i < self.entries().len() ==> self.entries()[i].0 != id,
            },
    {
        let mut i: usize = 0;
        while i < self.entries.len()
            invariant
                i <= self.entries@.len(),
                forall|j: int| 0 <= j < i ==> self.entries@[j].0 != id,
            decreases self.entries@.len() - i,
        {
            if self.entries[i].0 == id {
                return Some(i);
            }
            i = i + 1;
        }
        None
    }

    /// Point lookup.
    pub fn get(&self, id: u64) -> (r: Option<&T>)
        requires
            self.wf(),
        ensures
            match r {
                Some(v) => self.records().contains_key(id) && *v == self.records()[id],
                None => !self.records().contains_key(id),
            },
    {
        match self.position(id) {
            Some(i) => {
                proof {
                    lemma_entries_map_has(self.entries@, i as int);
                }
                Some(&self.entries[i].1)
            },
            None => {
                proof {
                    lemma_entries_map_lacks(self.entries@, id);
                }
                None
            },
        }
    }

    /// Stores `record` under `id`, overwriting any record already there.
    pub fn insert(&mut self, id: u64, record: T)
        requires
            old(self).wf(),
        ensures
            final(self).wf(),
            final(self).records() == old(self).records().insert(id, record),
            old(self).records().contains_key(id) ==> final(self).entries().len()
                == old(self).entries().len(),
            !old(self).records().contains_key(id) ==> final(self).entries() == old(
                self,
            ).entries().push((id, record)),
            final(self).keys() == (if old(self).records().contains_key(id) {
                old(self).keys()
            } else {
                old(self).keys().push(id)
            }),
    {
        match self.position(id) {
            Some(i) => {
                proof {
                    lemma_entries_map_has(self.entries@, i as int);
                    lemma_entries_map_update(self.entries@, i as int, record);
                }
                let ghost before = self.entries@;
                self.entries.remove(i);
                self.entries.insert(i, (id, record));
                assert(self.entries@ =~= before.update(i as int, (id, record)));
                assert(self.keys() =~= old(self).keys());
            },
            None => {
                proof {
                    lemma_entries_map_lacks(self.entries@, id);
                }
                let ghost before = self.entries@;
                self.entries.push((id, record));
                assert(self.entries@.drop_last() =~= before);
                assert(self.keys() =~= old(self).keys().push(id));
            },
        }
    }

    /// Number of stored entries.
    pub fn len(&self) -> (n: usize)
        ensures
            n == self.entries().len(),
    {
        self.entries.len()
    }

    /// The record of the entry at position `i` of the enumeration.
    pub fn record_at(&self, i: usize) -> (r: &T)
        requires
            self.wf(),
            i < self.entries().len(),
        ensures
            *r == self.entries()[i as int].1,
            self.records().contains_key(self.keys()[i as int]),
            *r == self.records()[self.keys()[i as int]],
    {
        proof {
            lemma_entries_map_has(self.entries(), i as int);
        }
        &self.entries[i].1
    }
}

} // verus!
