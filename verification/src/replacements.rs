//! The table of values for the placeholders of a source tree.

use vstd::prelude::*;
use crate::strings::same_text;

verus! {

/// A table from placeholder names to the values that stand in for them.
///
/// The table keeps what was inserted in order, and a later value for a name
/// wins over an earlier one.
#[derive(Clone, Debug)]
pub struct Replacements {
    entries: Vec<(String, String)>,
}

/// The map that a sequence of entries stands for, a later entry winning
/// over an earlier one of the same name.
pub open spec fn table_of(entries: Seq<(String, String)>) -> Map<Seq<char>, Seq<char>>
    decreases entries.len(),
{
    if entries.len() == 0 {
        Map::empty()
    } else {
        table_of(entries.drop_last()).insert(entries.last().0@, entries.last().1@)
    }
}

impl View for Replacements {
    type V = Map<Seq<char>, Seq<char>>;

    closed spec fn view(&self) -> Map<Seq<char>, Seq<char>> {
        table_of(self.entries@)
    }
}

impl Replacements {
    /// The empty table.
    pub fn new() -> (table: Replacements)
        ensures
            table@ == Map::<Seq<char>, Seq<char>>::empty(),
    {
        Replacements { entries: Vec::new() }
    }

    /// Whether the table holds no name.
    pub fn is_empty(&self) -> (empty: bool)
        ensures
            empty == (self@.dom() =~= Set::<Seq<char>>::empty()),
    {
        proof {
            if self.entries@.len() > 0 {
                assert(self@.dom().contains(self.entries@.last().0@));
            }
        }
        self.entries.len() == 0
    }

    /// The value that the table holds for `name`.
    pub fn get(&self, name: &str) -> (value: Option<&String>)
        ensures
            match value {
                Some(found) => self@.contains_key(name@) && self@[name@] == found@,
                None => !self@.contains_key(name@),
            },
    {
        let mut i: usize = self.entries.len();
        assert(self.entries@.take(i as int) =~= self.entries@);
        while i > 0
            invariant
                i <= self.entries.len(),
                table_of(self.entries@).contains_key(name@) == table_of(
                    self.entries@.take(i as int),
                ).contains_key(name@),
                table_of(self.entries@).contains_key(name@) ==> table_of(self.entries@)[name@]
                    == table_of(self.entries@.take(i as int))[name@],
            decreases i,
        {
            proof {
                let front = self.entries@.take(i as int);
                assert(front.drop_last() =~= self.entries@.take(i - 1));
            }
            i -= 1;
            if same_text(self.entries[i].0.as_str(), name) {
                return Some(&self.entries[i].1);
            }
        }
        None
    }

    /// Sets the value for `key`.
    pub fn insert(&mut self, key: String, value: String)
        ensures
            final(self)@ == old(self)@.insert(key@, value@),
    {
        self.entries.push((key, value));
        assert(self.entries@.drop_last() =~= old(self).entries@);
    }
}

} // verus!
