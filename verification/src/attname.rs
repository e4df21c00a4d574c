//! Names of indexed fields by the columns that they index.

use crate::catalog::{AttrNumber, Varno};
use vstd::prelude::*;

verus! {

/// One column and the name of its field.
#[derive(Debug)]
pub struct AttnameEntry {
    pub varno: Varno,
    pub varattno: AttrNumber,
    pub fieldname: String,
}

/// Which field each column of the query's relations is indexed under. A column has one field at
/// most.
#[derive(Debug)]
pub struct AttnameLookup {
    entries: Vec<AttnameEntry>,
}

impl View for AttnameLookup {
    type V = Map<(Varno, AttrNumber), Seq<char>>;

    closed spec fn view(&self) -> Map<(Varno, AttrNumber), Seq<char>> {
        fields_of(self.entries@)
    }
}

/// The fields that the entries give their columns, a later entry over an earlier one.
spec fn fields_of(entries: Seq<AttnameEntry>) -> Map<(Varno, AttrNumber), Seq<char>>
    decreases entries.len(),
{
    if entries.len() == 0 {
        Map::empty()
    } else {
        let last = entries.last();
        fields_of(entries.drop_last()).insert((last.varno, last.varattno), last.fieldname@)
    }
}

impl AttnameLookup {
    /// Knows no column.
    pub fn new() -> (lookup: AttnameLookup)
        ensures
            lookup@ == Map::<(Varno, AttrNumber), Seq<char>>::empty(),
    {
        AttnameLookup { entries: Vec::new() }
    }

    /// Gives the column the field `fieldname`, in place of the one that it may have had.
    pub fn insert(&mut self, varno: Varno, varattno: AttrNumber, fieldname: String)
        ensures
            final(self)@ == old(self)@.insert((varno, varattno), fieldname@),
    {
        let ghost before = self.entries@;
        self.entries.push(AttnameEntry { varno, varattno, fieldname });
        assert(self.entries@.drop_last() == before);
    }

    /// The name of the field of a column.
    pub fn get(&self, varno: Varno, varattno: AttrNumber) -> (fieldname: Option<&String>)
        ensures
            fieldname is Some <==> self@.contains_key((varno, varattno)),
            fieldname matches Some(name) ==> name@ == self@[(varno, varattno)],
    {
        let mut n: usize = self.entries.len();
        assert(self.entries@.take(n as int) == self.entries@);
        while n > 0
            invariant
                n <= self.entries.len(),
                fields_of(self.entries@.take(n as int)).contains_key((varno, varattno))
                    <==> self@.contains_key((varno, varattno)),
                self@.contains_key((varno, varattno)) ==> fields_of(
                    self.entries@.take(n as int),
                )[(varno, varattno)] == self@[(varno, varattno)],
            decreases n,
        {
            let entry = &self.entries[n - 1];
            assert(self.entries@.take(n as int).drop_last() == self.entries@.take(n - 1));
            if entry.varno == varno && entry.varattno == varattno {
                return Some(&entry.fieldname);
            }
            n -= 1;
        }
        None
    }
}

} // verus!
