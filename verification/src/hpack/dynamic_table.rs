//! The dynamic table: the fields that one direction of a connection has
//! indexed so far, newest first, within a size limit.

use crate::solicit::header::Header;
use vstd::prelude::*;

verus! {

/// The size that one entry counts for: its bytes and 32 more.
pub open spec fn spec_entry_size(e: (Seq<u8>, Seq<u8>)) -> nat {
    e.0.len() + e.1.len() + 32
}

/// The size that a list of entries counts for.
pub open spec fn spec_entries_size(entries: Seq<(Seq<u8>, Seq<u8>)>) -> nat
    decreases entries.len(),
{
    if entries.len() == 0 {
        0
    } else {
        spec_entry_size(entries.last()) + spec_entries_size(entries.drop_last())
    }
}

/// The entries that stay when the oldest ones leave until the rest counts
/// for no more than `budget`. The oldest entry is the last.
pub open spec fn spec_evict(entries: Seq<(Seq<u8>, Seq<u8>)>, budget: int) -> Seq<(Seq<u8>, Seq<u8>)>
    decreases entries.len(),
{
    if entries.len() == 0 || spec_entries_size(entries) <= budget {
        entries
    } else {
        spec_evict(entries.drop_last(), budget)
    }
}

/// The entries after `e` was added under the limit `max_size`: old entries
/// leave until `e` fits, and `e` comes first. An entry larger than the limit
/// empties the table and is not added.
pub open spec fn spec_table_add(
    entries: Seq<(Seq<u8>, Seq<u8>)>,
    max_size: nat,
    e: (Seq<u8>, Seq<u8>),
) -> Seq<(Seq<u8>, Seq<u8>)> {
    if spec_entry_size(e) > max_size {
        Seq::empty()
    } else {
        seq![e] + spec_evict(entries, max_size - spec_entry_size(e))
    }
}

/// What is left of a list of entries stays within the budget.
pub proof fn lemma_evict_size(entries: Seq<(Seq<u8>, Seq<u8>)>, budget: int)
    requires
        budget >= 0,
    ensures
        spec_entries_size(spec_evict(entries, budget)) <= budget,
    decreases entries.len(),
{
    if entries.len() == 0 || spec_entries_size(entries) <= budget {
    } else {
        lemma_evict_size(entries.drop_last(), budget);
    }
}

/// Putting an entry in front adds its size.
pub proof fn lemma_size_push_front(entries: Seq<(Seq<u8>, Seq<u8>)>, e: (Seq<u8>, Seq<u8>))
    ensures
        spec_entries_size(seq![e] + entries) == spec_entry_size(e) + spec_entries_size(entries),
    decreases entries.len(),
{
    let all = seq![e] + entries;
    if entries.len() == 0 {
        assert(all.drop_last() =~= Seq::<(Seq<u8>, Seq<u8>)>::empty());
        assert(all.last() == e);
        assert(spec_entries_size(all.drop_last()) == 0);
        assert(spec_entries_size(entries) == 0);
    } else {
        assert(all.drop_last() =~= seq![e] + entries.drop_last());
        assert(all.last() == entries.last());
        lemma_size_push_front(entries.drop_last(), e);
    }
}

/// The dynamic table of one direction.
pub struct DynamicTable {
    entries: Vec<Header>,
    size: usize,
    max_size: usize,
}

/// What a dynamic table holds.
pub ghost struct DynamicTableView {
    /// The entries, newest first.
    pub entries: Seq<(Seq<u8>, Seq<u8>)>,
    /// The limit on the size of the entries.
    pub max_size: nat,
}

impl View for DynamicTable {
    type V = DynamicTableView;

    closed spec fn view(&self) -> DynamicTableView {
        DynamicTableView {
            entries: Seq::new(self.entries@.len(), |i: int| self.entries@[i]@),
            max_size: self.max_size as nat,
        }
    }
}

impl DynamicTable {
    /// The size on record is that of the entries, and it is within the
    /// limit.
    pub closed spec fn wf(&self) -> bool {
        &&& self.size == spec_entries_size(self@.entries)
        &&& self.size <= self.max_size
    }

    /// The entries of a consistent table count for no more than the limit,
    /// which is a machine number.
    pub proof fn lemma_wf_bounds(&self)
        requires
            self.wf(),
        ensures
            spec_entries_size(self@.entries) <= self@.max_size <= usize::MAX,
    {
    }

    /// An empty table with the given limit.
    pub fn with_size(max_size: usize) -> (r: DynamicTable)
        ensures
            r.wf(),
            r@ == (DynamicTableView { entries: Seq::empty(), max_size: max_size as nat }),
    {
        let r = DynamicTable { entries: Vec::new(), size: 0, max_size };
        assert(r@.entries =~= Seq::<(Seq<u8>, Seq<u8>)>::empty());
        r
    }

    /// The size that the entries count for.
    pub fn get_size(&self) -> (r: usize)
        requires
            self.wf(),
        ensures
            r == spec_entries_size(self@.entries),
    {
        self.size
    }

    /// The limit on the size of the entries.
    pub fn get_max_table_size(&self) -> (r: usize)
        ensures
            r == self@.max_size,
    {
        self.max_size
    }

    /// The number of entries.
    pub fn len(&self) -> (r: usize)
        ensures
            r == self@.entries.len(),
    {
        self.entries.len()
    }

    /// The entry at the given position; position 0 is the newest.
    pub fn get(&self, index: usize) -> (r: &Header)
        requires
            index < self@.entries.len(),
        ensures
            r@ == self@.entries[index as int],
    {
        &self.entries[index]
    }

    fn evict_to(&mut self, budget: usize)
        requires
            old(self).wf(),
        ensures
            final(self)@.entries == spec_evict(old(self)@.entries, budget as int),
            final(self).size == spec_entries_size(final(self)@.entries),
            final(self).size <= budget,
            final(self).max_size == old(self).max_size,
    {
        while self.size > budget
            invariant
                self.size == spec_entries_size(self@.entries),
                self.max_size == old(self).max_size,
                spec_evict(self@.entries, budget as int) == spec_evict(
                    old(self)@.entries,
                    budget as int,
                ),
            decreases self@.entries.len(),
        {
            let ghost before = self@.entries;
            assert(before.len() > 0);
            let last = self.entries.pop();
            match last {
                Some(entry) => {
                    assert(entry@ == before.last());
                    assert(self@.entries =~= before.drop_last());
                    self.size = self.size - (entry.name.len() + entry.value.len() + 32);
                },
                None => {},
            }
        }
    }

    /// Adds an entry in front, after the oldest entries have left to make
    /// room. An entry larger than the limit empties the table.
    pub fn add_header(&mut self, name: Vec<u8>, value: Vec<u8>)
        requires
            old(self).wf(),
        ensures
            final(self).wf(),
            final(self)@ == (DynamicTableView {
                entries: spec_table_add(old(self)@.entries, old(self)@.max_size, (name@, value@)),
                max_size: old(self)@.max_size,
            }),
    {
        let max: usize = self.max_size;
        let fits: bool = name.len() <= max && value.len() <= max - name.len() && 32 <= max
            - name.len() - value.len();
        if !fits {
            self.entries.clear();
            self.size = 0;
            assert(self@.entries =~= Seq::<(Seq<u8>, Seq<u8>)>::empty());
            return ;
        }
        let entry_size: usize = name.len() + value.len() + 32;
        self.evict_to(max - entry_size);
        let ghost kept = self@.entries;
        self.entries.insert(0, Header { name, value });
        self.size = self.size + entry_size;
        proof {
            assert(self@.entries =~= seq![(name@, value@)] + kept);
            lemma_size_push_front(kept, (name@, value@));
        }
    }

    /// Changes the limit; the oldest entries leave until the rest fits.
    pub fn set_max_table_size(&mut self, new_max_size: usize)
        requires
            old(self).wf(),
        ensures
            final(self).wf(),
            final(self)@ == (DynamicTableView {
                entries: spec_evict(old(self)@.entries, new_max_size as int),
                max_size: new_max_size as nat,
            }),
    {
        self.evict_to(new_max_size);
        self.max_size = new_max_size;
    }
}

} // verus!
