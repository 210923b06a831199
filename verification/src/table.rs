//! Tables keyed by name, held as a list of entries. A name stands for the
//! value of the last entry that carries it. Names are compared by their
//! characters, which is what every contract on a lookup speaks of; a hash
//! map keyed by `String` would leave that comparison to a hasher and an
//! equality that the verifier does not see into.
use crate::text::str_eq;
use vstd::prelude::*;

verus! {

/// A table from names to values. `insert` replaces the entry of a name
/// that is already there, so a table built by it has one entry per name.
#[derive(Clone, Debug, PartialEq, Eq)]
pub struct NameTable<V> {
    pub entries: Vec<(String, V)>,
}

/// The value of the last entry named `name`, if there is one.
pub open spec fn last_value<V>(entries: Seq<(String, V)>, name: Seq<char>) -> Option<V>
    decreases entries.len(),
{
    if entries.len() == 0 {
        None
    } else if entries.last().0@ == name {
        Some(entries.last().1)
    } else {
        last_value(entries.drop_last(), name)
    }
}

/// From a position after which no entry is named `name`, the search can
/// start at that position.
pub proof fn lemma_last_value_skip<V>(entries: Seq<(String, V)>, name: Seq<char>, upto: int)
    requires
        0 <= upto <= entries.len(),
        forall|j: int| upto <= j < entries.len() ==> entries[j].0@ != name,
    ensures
        last_value(entries, name) == last_value(entries.take(upto), name),
    decreases entries.len() - upto,
{
    if upto == entries.len() {
        assert(entries.take(upto) == entries);
    } else {
        let shorter = entries.drop_last();
        lemma_last_value_skip(shorter, name, upto);
        assert(shorter.take(upto) == entries.take(upto));
    }
}

/// Replacing the last entry named `name` changes what that name stands for
/// and nothing else.
pub proof fn lemma_last_value_update<V>(
    entries: Seq<(String, V)>,
    at: int,
    entry: (String, V),
    other: Seq<char>,
)
    requires
        0 <= at < entries.len(),
        entries[at].0@ == entry.0@,
        forall|j: int| at < j < entries.len() ==> entries[j].0@ != entry.0@,
    ensures
        last_value(entries.update(at, entry), other) == if other == entry.0@ {
            Some(entry.1)
        } else {
            last_value(entries, other)
        },
    decreases entries.len(),
{
    let changed = entries.update(at, entry);
    if at == entries.len() - 1 {
        assert(changed.drop_last() == entries.drop_last());
    } else {
        assert(changed.drop_last() == entries.drop_last().update(at, entry));
        lemma_last_value_update(entries.drop_last(), at, entry, other);
    }
}

/// The index of the last entry named `name`, if there is one.
pub fn last_position<V>(entries: &Vec<(String, V)>, name: &str) -> (r: Option<usize>)
    ensures
        match r {
            Some(i) => {
                &&& i < entries@.len()
                &&& entries@[i as int].0@ == name@
                &&& forall|j: int| i < j < entries@.len() ==> entries@[j].0@ != name@
                &&& last_value(entries@, name@) == Some(entries@[i as int].1)
            },
            None => last_value(entries@, name@) is None,
        },
{
    let mut i: usize = entries.len();
    while i > 0
        invariant
            0 <= i <= entries@.len(),
            forall|j: int| i <= j < entries@.len() ==> entries@[j].0@ != name@,
        decreases i,
    {
        i -= 1;
        if str_eq(entries[i].0.as_str(), name) {
            proof {
                lemma_last_value_skip(entries@, name@, i + 1);
                assert(entries@.take(i + 1).last() == entries@[i as int]);
            }
            return Some(i);
        }
    }
    proof {
        lemma_last_value_skip(entries@, name@, 0);
    }
    None
}

impl<V> NameTable<V> {
    /// The value that `name` stands for.
    pub open spec fn lookup(self, name: Seq<char>) -> Option<V> {
        last_value(self.entries@, name)
    }

    /// The table without any entry.
    pub fn new() -> (r: NameTable<V>)
        ensures
            forall|name: Seq<char>| r.lookup(name) is None,
    {
        NameTable { entries: Vec::new() }
    }

    /// The value that `name` stands for, if the table holds one.
    pub fn get(&self, name: &str) -> (r: Option<&V>)
        ensures
            match r {
                Some(value) => self.lookup(name@) == Some(*value),
                None => self.lookup(name@) is None,
            },
    {
        match last_position(&self.entries, name) {
            Some(i) => Some(&self.entries[i].1),
            None => None,
        }
    }

    /// Makes `name` stand for `value`. Every other name stands for what it
    /// stood for before.
    pub fn insert(&mut self, name: String, value: V)
        ensures
            forall|other: Seq<char>| #[trigger]
                final(self).lookup(other) == if other == name@ {
                    Some(value)
                } else {
                    old(self).lookup(other)
                },
    {
        match last_position(&self.entries, name.as_str()) {
            Some(i) => {
                proof {
                    assert forall|other: Seq<char>| #[trigger]
                        last_value(self.entries@.update(i as int, (name, value)), other) == if other
                            == name@ {
                            Some(value)
                        } else {
                            last_value(self.entries@, other)
                        } by {
                        lemma_last_value_update(self.entries@, i as int, (name, value), other);
                    }
                }
                self.entries.set(i, (name, value));
            },
            None => {
                proof {
                    assert(self.entries@.push((name, value)).drop_last() == self.entries@);
                }
                self.entries.push((name, value));
            },
        }
    }
}

} // verus!
