//! Tables from names to guest addresses.

use vstd::prelude::*;

use crate::text::same_text;

verus! {

/// Names with the guest address that each stands for.
pub struct NameTable {
    entries: Vec<(String, u32)>,
}

impl View for NameTable {
    type V = Seq<(Seq<char>, u32)>;

    closed spec fn view(&self) -> Seq<(Seq<char>, u32)> {
        self.entries@.map_values(|entry: (String, u32)| (entry.0@, entry.1))
    }
}

/// The address of the first entry with the given name.
pub open spec fn find(table: Seq<(Seq<char>, u32)>, name: Seq<char>) -> Option<u32>
    decreases table.len(),
{
    if table.len() == 0 {
        None
    } else if table[0].0 == name {
        Some(table[0].1)
    } else {
        find(table.drop_first(), name)
    }
}

impl NameTable {
    /// A table without entries.
    pub fn new() -> (table: NameTable)
        ensures
            table@ == Seq::<(Seq<char>, u32)>::empty(),
    {
        let table = NameTable { entries: Vec::new() };
        assert(table@ =~= Seq::empty());
        table
    }

    /// Adds an entry behind the others.
    pub fn push(&mut self, name: &str, address: u32)
        ensures
            final(self)@ == old(self)@.push((name@, address)),
    {
        self.entries.push((name.to_owned(), address));
        assert(self@ =~= old(self)@.push((name@, address)));
    }

    /// The address of the first entry with the given name.
    pub fn find(&self, name: &str) -> (address: Option<u32>)
        ensures
            address == find(self@, name@),
    {
        let mut i: usize = 0;
        assert(self@.skip(0) =~= self@);
        while i < self.entries.len()
            invariant
                i <= self.entries@.len(),
                self@.len() == self.entries@.len(),
                find(self@.skip(i as int), name@) == find(self@, name@),
            decreases self.entries@.len() - i,
        {
            assert(self@.skip(i as int)[0] == (
                self.entries@[i as int].0@,
                self.entries@[i as int].1,
            ));
            if same_text(self.entries[i].0.as_str(), name) {
                return Some(self.entries[i].1);
            }
            assert(self@.skip(i as int).drop_first() =~= self@.skip(i + 1));
            i += 1;
        }
        None
    }
}

/// A name stands for the address in the first entry that has the name, and for none
/// if no entry has it.
pub proof fn law_first_entry_counts(table: Seq<(Seq<char>, u32)>, name: Seq<char>, i: int)
    requires
        0 <= i <= table.len(),
        forall|j: int| 0 <= j < i ==> (#[trigger] table[j]).0 != name,
        i < table.len() ==> table[i].0 == name,
    ensures
        find(table, name) == (if i < table.len() {
            Some(table[i].1)
        } else {
            None
        }),
    decreases table.len(),
{
    if i > 0 {
        assert(table[0].0 != name);
        let rest = table.drop_first();
        assert forall|j: int| 0 <= j < i - 1 implies (#[trigger] rest[j]).0 != name by {
            assert(rest[j] == table[j + 1]);
        }
        law_first_entry_counts(rest, name, i - 1);
    }
}

} // verus!
