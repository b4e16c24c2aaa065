//! The per-table record that a registration callback populates.

use vstd::prelude::*;
use vstd::string::StringExecFns;

verus! {

/// A table skeleton: a name fixed at creation, and the ordered list of
/// already-rendered DDL fragments appended by the table's callback.
///
/// Each fragment must carry any separator punctuation it needs, so that
/// concatenating the items verbatim yields valid column-list syntax; the
/// renderer inserts nothing between fragments.
pub struct Table {
    /// The table's name, quoted verbatim into the statement.
    pub name: String,
    /// The accumulated DDL fragments, rendered in order.
    pub items: Vec<String>,
}

impl Table {
    /// The fragment list as a sequence of character sequences.
    pub open spec fn frags(&self) -> Seq<Seq<char>> {
        self.items.deep_view()
    }

    /// A fresh skeleton: the given name, no fragments yet.
    pub fn new(name: &str) -> (t: Table)
        ensures
            t.name@ == name@,
            t.frags() == Seq::<Seq<char>>::empty(),
    {
        let t = Table { name: String::from_str(name), items: Vec::new() };
        proof {
            assert(t.frags() =~= Seq::<Seq<char>>::empty());
        }
        t
    }

    /// Append one already-rendered fragment to the item list.
    pub fn add_item(&mut self, frag: &str)
        ensures
            final(self).name@ == old(self).name@,
            final(self).frags() == old(self).frags().push(frag@),
    {
        self.items.push(String::from_str(frag));
        proof {
            assert(self.frags() =~= old(self).frags().push(frag@));
        }
    }
}

} // verus!
