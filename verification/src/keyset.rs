//! Finite sets of keys.

use vstd::prelude::*;

use crate::key::Key;

verus! {

/// A finite set of keys. Its view is the mathematical set; the order in which it hands its keys
/// out is the order in which they came in.
#[derive(Debug)]
pub struct KeySet {
    keys: Vec<Key>,
}

impl View for KeySet {
    type V = Set<Key>;

    closed spec fn view(&self) -> Set<Key> {
        self.keys@.to_set()
    }
}

impl KeySet {
    /// No key is held twice.
    #[verifier::type_invariant]
    closed spec fn well_formed(self) -> bool {
        self.keys@.no_duplicates()
    }

    /// The keys in the order in which the set hands them out.
    pub closed spec fn listed(self) -> Seq<Key> {
        self.keys@
    }

    pub fn new() -> (set: KeySet)
        ensures
            set@ == Set::<Key>::empty(),
    {
        let set = KeySet { keys: Vec::new() };
        proof {
            assert(set@ =~= Set::<Key>::empty());
        }
        set
    }

    /// The set of the keys in a list, in which a key may stand more than once.
    pub fn from_vec(keys: Vec<Key>) -> (set: KeySet)
        ensures
            set@ == keys@.to_set(),
    {
        let mut set = KeySet::new();
        let mut index: usize = 0;
        while index < keys.len()
            invariant
                index <= keys.len(),
                set@ == keys@.take(index as int).to_set(),
            decreases keys.len() - index,
        {
            set.insert(keys[index]);
            proof {
                let before = keys@.take(index as int);
                lemma_push_to_set(before, keys@[index as int]);
                assert(keys@.take(index + 1) =~= before.push(keys@[index as int]));
            }
            index = index + 1;
        }
        proof {
            assert(keys@.take(index as int) =~= keys@);
        }
        set
    }

    /// The keys of the set, each once.
    pub fn to_vec(&self) -> (keys: Vec<Key>)
        ensures
            keys@ == self.listed(),
            keys@.no_duplicates(),
            keys@.to_set() == self@,
    {
        proof {
            use_type_invariant(self);
        }
        let mut keys: Vec<Key> = Vec::new();
        let mut index: usize = 0;
        while index < self.keys.len()
            invariant
                index <= self.keys.len(),
                keys@ == self.keys@.take(index as int),
            decreases self.keys.len() - index,
        {
            keys.push(self.keys[index]);
            proof {
                assert(keys@ =~= self.keys@.take(index + 1));
            }
            index = index + 1;
        }
        proof {
            assert(keys@ =~= self.keys@);
        }
        keys
    }

    fn position(&self, key: Key) -> (found: Option<usize>)
        ensures
            match found {
                Some(at) => at < self.keys@.len() && self.keys@[at as int] == key,
                None => !self.keys@.contains(key),
            },
    {
        let mut index: usize = 0;
        while index < self.keys.len()
            invariant
                index <= self.keys.len(),
                forall|at: int| 0 <= at < index ==> self.keys@[at] != key,
            decreases self.keys.len() - index,
        {
            if self.keys[index] == key {
                return Some(index);
            }
            index = index + 1;
        }
        None
    }

    pub fn contains(&self, key: Key) -> (found: bool)
        ensures
            found == self@.contains(key),
    {
        self.position(key).is_some()
    }

    pub fn is_empty(&self) -> (empty: bool)
        ensures
            empty == (self@ == Set::<Key>::empty()),
    {
        proof {
            if self.keys@.len() > 0 {
                assert(self.keys@.contains(self.keys@[0]));
                assert(self@.contains(self.keys@[0]));
            } else {
                assert(self@ =~= Set::<Key>::empty());
            }
        }
        self.keys.len() == 0
    }

    /// Adds a key; says whether the key was new.
    pub fn insert(&mut self, key: Key) -> (new: bool)
        ensures
            final(self)@ == old(self)@.insert(key),
            new == !old(self)@.contains(key),
    {
        proof {
            use_type_invariant(&*self);
        }
        if self.contains(key) {
            proof {
                assert(self@ =~= old(self)@.insert(key));
            }
            return false;
        }
        let mut keys: Vec<Key> = Vec::new();
        std::mem::swap(&mut keys, &mut self.keys);
        let ghost before = keys@;
        keys.push(key);
        self.keys = keys;
        proof {
            lemma_push_to_set(before, key);
        }
        true
    }

    /// Takes a key out; says whether it was there.
    pub fn remove(&mut self, key: Key) -> (found: bool)
        ensures
            final(self)@ == old(self)@.remove(key),
            found == old(self)@.contains(key),
    {
        proof {
            use_type_invariant(&*self);
        }
        match self.position(key) {
            Some(at) => {
                let mut keys: Vec<Key> = Vec::new();
                std::mem::swap(&mut keys, &mut self.keys);
                let ghost before = keys@;
                keys.remove(at);
                proof {
                    let after = keys@;
                    assert(after =~= before.remove(at as int));
                    assert(before[at as int] == key);
                    assert forall|one: int, two: int|
                        0 <= one < after.len() && 0 <= two < after.len() && one
                            != two implies after[one] != after[two] by {
                        let one_before = if one < at { one } else { one + 1 };
                        let two_before = if two < at { two } else { two + 1 };
                        assert(after[one] == before[one_before]);
                        assert(after[two] == before[two_before]);
                    }
                }
                self.keys = keys;
                proof {
                    let after = self.keys@;
                    assert forall|other: Key| after.contains(other) implies before.contains(other)
                        && other != key by {
                        let now = choose|now: int| 0 <= now < after.len() && after[now] == other;
                        let then = if now < at { now } else { now + 1 };
                        assert(before[then] == other);
                    }
                    assert forall|other: Key|
                        before.contains(other) && other != key implies after.contains(other) by {
                        let then = choose|then: int|
                            0 <= then < before.len() && before[then] == other;
                        let now = if then < at { then } else { then - 1 };
                        assert(after[now] == other);
                    }
                    assert(self@ =~= old(self)@.remove(key));
                }
                true
            },
            None => {
                proof {
                    assert(self@ =~= old(self)@.remove(key));
                }
                false
            },
        }
    }

    pub fn is_subset(&self, other: &KeySet) -> (subset: bool)
        ensures
            subset == self@.subset_of(other@),
    {
        let mut index: usize = 0;
        while index < self.keys.len()
            invariant
                index <= self.keys.len(),
                forall|key: Key| #[trigger]
                    self.keys@.to_set().contains(key) <==> self.keys@.contains(key),
                forall|at: int| 0 <= at < index ==> other@.contains(self.keys@[at]),
            decreases self.keys.len() - index,
        {
            if !other.contains(self.keys[index]) {
                proof {
                    assert(self.keys@.contains(self.keys@[index as int]));
                    assert(self@.contains(self.keys@[index as int]));
                }
                return false;
            }
            index = index + 1;
        }
        true
    }

    pub fn is_disjoint(&self, other: &KeySet) -> (disjoint: bool)
        ensures
            disjoint == self@.disjoint(other@),
    {
        let mut index: usize = 0;
        while index < self.keys.len()
            invariant
                index <= self.keys.len(),
                forall|key: Key| #[trigger]
                    self.keys@.to_set().contains(key) <==> self.keys@.contains(key),
                forall|at: int| 0 <= at < index ==> !other@.contains(self.keys@[at]),
            decreases self.keys.len() - index,
        {
            if other.contains(self.keys[index]) {
                proof {
                    assert(self.keys@.contains(self.keys@[index as int]));
                    assert(self@.contains(self.keys@[index as int]));
                }
                return false;
            }
            index = index + 1;
        }
        proof {
            assert forall|key: Key| self@.contains(key) implies !other@.contains(key) by {
                let at = choose|at: int| 0 <= at < self.keys@.len() && self.keys@[at] == key;
                assert(self.keys@[at] == key);
            }
        }
        true
    }

    /// Adds every key of another set.
    pub fn extend(&mut self, other: &KeySet)
        ensures
            final(self)@ == old(self)@.union(other@),
    {
        let mut index: usize = 0;
        let ghost before = self@;
        while index < other.keys.len()
            invariant
                index <= other.keys.len(),
                self@ == before.union(other.keys@.take(index as int).to_set()),
            decreases other.keys.len() - index,
        {
            self.insert(other.keys[index]);
            proof {
                let shorter = other.keys@.take(index as int);
                let longer = other.keys@.take(index + 1);
                lemma_push_to_set(shorter, other.keys@[index as int]);
                assert(longer =~= shorter.push(other.keys@[index as int]));
                assert(self@ =~= before.union(longer.to_set()));
            }
            index = index + 1;
        }
        proof {
            assert(other.keys@.take(index as int) =~= other.keys@);
            assert(index == other.keys@.len());
        }
    }

    /// The keys that are in both sets.
    pub fn intersection(&self, other: &KeySet) -> (both: KeySet)
        ensures
            both@ == self@.intersect(other@),
    {
        let mut both = KeySet::new();
        let mut index: usize = 0;
        proof {
            assert(both@ =~= self.keys@.take(0).to_set().intersect(other@));
        }
        while index < self.keys.len()
            invariant
                index <= self.keys.len(),
                both@ == self.keys@.take(index as int).to_set().intersect(other@),
            decreases self.keys.len() - index,
        {
            let key = self.keys[index];
            if other.contains(key) {
                both.insert(key);
            }
            proof {
                let shorter = self.keys@.take(index as int);
                let longer = self.keys@.take(index + 1);
                lemma_push_to_set(shorter, key);
                assert(longer =~= shorter.push(key));
                assert(both@ =~= longer.to_set().intersect(other@));
            }
            index = index + 1;
        }
        proof {
            assert(self.keys@.take(index as int) =~= self.keys@);
        }
        both
    }

    /// Whether the two sets hold the same keys.
    pub fn same_keys(&self, other: &KeySet) -> (same: bool)
        ensures
            same == (self@ == other@),
    {
        let same = self.is_subset(other) && other.is_subset(self);
        proof {
            if same {
                assert(self@ =~= other@);
            }
        }
        same
    }
}

proof fn lemma_push_to_set(keys: Seq<Key>, key: Key)
    ensures
        keys.push(key).to_set() == keys.to_set().insert(key),
{
    let after = keys.push(key);
    assert forall|other: Key| after.contains(other) implies keys.contains(other) || other == key by {
        let at = choose|at: int| 0 <= at < after.len() && after[at] == other;
        if at < keys.len() {
            assert(keys[at] == other);
        }
    }
    assert forall|other: Key| keys.contains(other) || other == key implies after.contains(other) by {
        if other == key {
            assert(after[keys.len() as int] == key);
        } else {
            let at = choose|at: int| 0 <= at < keys.len() && keys[at] == other;
            assert(after[at] == other);
        }
    }
    assert(after.to_set() =~= keys.to_set().insert(key));
}

impl Clone for KeySet {
    fn clone(&self) -> (copy: KeySet)
        ensures
            copy@ == self@,
    {
        KeySet::from_vec(self.to_vec())
    }
}

impl PartialEq for KeySet {
    fn eq(&self, other: &KeySet) -> (same: bool) {
        self.same_keys(other)
    }
}

impl vstd::std_specs::cmp::PartialEqSpecImpl for KeySet {
    open spec fn obeys_eq_spec() -> bool {
        true
    }

    open spec fn eq_spec(&self, other: &KeySet) -> bool {
        self@ == other@
    }
}

/// A set holds finitely many keys.
pub proof fn key_sets_are_finite(keys: KeySet)
    ensures
        keys@.finite(),
{
    vstd::seq_lib::seq_to_set_is_finite(keys.keys@);
}

} // verus!
