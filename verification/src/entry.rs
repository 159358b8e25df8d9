//! Identities of device nodes.

use std::collections::BTreeMap;
use vstd::prelude::*;

verus! {

broadcast use {vstd::std_specs::btree::group_btree_axioms, vstd::laws_cmp::group_laws_cmp};

/// The identity of a node in the file system: two nodes with one entry are the same node.
#[derive(Clone, Copy, Debug, PartialEq, Eq, Hash, Structural)]
pub struct Entry {
    pub device: u64,
    pub inode: u64,
}

/// The entry with these numbers.
pub open spec fn entry_of(numbers: (u64, u64)) -> Entry {
    Entry { device: numbers.0, inode: numbers.1 }
}

/// A table with something for each of some nodes.
pub struct EntryMap<T> {
    table: BTreeMap<(u64, u64), T>,
}

impl<T> View for EntryMap<T> {
    type V = Map<Entry, T>;

    closed spec fn view(&self) -> Map<Entry, T> {
        Map::new(
            |entry: Entry| self.table@.contains_key((entry.device, entry.inode)),
            |entry: Entry| self.table@[(entry.device, entry.inode)],
        )
    }
}

impl<T> EntryMap<T> {
    pub fn new() -> (map: EntryMap<T>)
        ensures
            map@ == Map::<Entry, T>::empty(),
    {
        let map = EntryMap { table: BTreeMap::new() };
        assert(map@ =~= Map::<Entry, T>::empty());
        map
    }

    pub fn get(&self, entry: Entry) -> (found: Option<&T>)
        ensures
            match found {
                Some(value) => self@.contains_key(entry) && self@[entry] == *value,
                None => !self@.contains_key(entry),
            },
    {
        self.table.get(&(entry.device, entry.inode))
    }

    pub fn insert(&mut self, entry: Entry, value: T)
        ensures
            final(self)@ == old(self)@.insert(entry, value),
    {
        self.table.insert((entry.device, entry.inode), value);
        proof {
            assert(self@ =~= old(self)@.insert(entry, value));
        }
    }

    pub fn remove(&mut self, entry: Entry) -> (removed: Option<T>)
        ensures
            final(self)@ == old(self)@.remove(entry),
            match removed {
                Some(value) => old(self)@.contains_key(entry) && old(self)@[entry] == value,
                None => !old(self)@.contains_key(entry),
            },
    {
        let removed = self.table.remove(&(entry.device, entry.inode));
        proof {
            assert(self@ =~= old(self)@.remove(entry));
        }
        removed
    }

    /// The nodes of the table, each once.
    pub fn entries(&self) -> (entries: Vec<Entry>)
        ensures
            entries@.no_duplicates(),
            forall|entry: Entry| #[trigger]
                entries@.contains(entry) <==> self@.contains_key(entry),
    {
        let mut entries: Vec<Entry> = Vec::new();
        let pairs = self.table.iter();
        let ghost listed = vstd::std_specs::iter::IteratorSpec::remaining(&pairs).map_values(
            |pair: (&(u64, u64), &T)| *pair.0,
        );
        for pair in walk: pairs
            invariant
                walk.seq().map_values(|pair: (&(u64, u64), &T)| *pair.0) == listed,
                entries@ == listed.take(walk.index()).map_values(
                    |numbers: (u64, u64)| entry_of(numbers),
                ),
        {
            let numbers = *pair.0;
            entries.push(Entry { device: numbers.0, inode: numbers.1 });
            proof {
                assert(entries@ =~= listed.take(walk.index() + 1).map_values(
                    |numbers: (u64, u64)| entry_of(numbers),
                ));
            }
        }
        proof {
            assert(entries@ =~= listed.map_values(|numbers: (u64, u64)| entry_of(numbers)));
            assert(vstd::std_specs::btree::increasing_seq(listed));
            assert forall|left: int, right: int|
                0 <= left < entries@.len() && 0 <= right < entries@.len() && left
                    != right implies entries@[left] != entries@[right] by {
                let (first, second) = if left < right {
                    (left, right)
                } else {
                    (right, left)
                };
                assert(vstd::std_specs::cmp::OrdSpec::cmp_spec(
                    &listed[first],
                    &listed[second],
                ) is Less);
                assert(vstd::std_specs::cmp::OrdSpec::cmp_spec(
                    &listed[first],
                    &listed[first],
                ) is Equal);
            }
            let walked = vstd::std_specs::iter::IteratorSpec::remaining(
                &vstd::std_specs::btree::spec_btree_map_iter(&self.table),
            );
            assert forall|entry: Entry| #[trigger] entries@.contains(
                entry,
            ) implies self@.contains_key(entry) by {
                let at = choose|at: int| 0 <= at < entries@.len() && entries@[at] == entry;
                assert(self.table@.contains_key(*walked[at].0));
            }
            assert forall|entry: Entry| #[trigger] self@.contains_key(
                entry,
            ) implies entries@.contains(entry) by {
                let numbers = (entry.device, entry.inode);
                assert(self.table@.contains_key(numbers));
                assert(walked.contains((&numbers, &self.table@[numbers])));
                let at = choose|at: int|
                    0 <= at < walked.len() && walked[at] == (&numbers, &self.table@[numbers]);
                assert(listed[at] == numbers);
                assert(entries@[at] == entry);
            }
        }
        entries
    }
}

} // verus!
