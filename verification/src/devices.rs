//! Tables that hold a set of keys for each device.

use std::collections::BTreeMap;
use vstd::prelude::*;

use crate::key::Key;
use crate::keyset::KeySet;

verus! {

/// Whether a list of device identifiers is strictly ascending.
pub open spec fn ascending(ids: Seq<usize>) -> bool {
    forall|left: int, right: int| 0 <= left < right < ids.len() ==> ids[left] < ids[right]
}

/// The identifiers of a set of devices in ascending order.
pub open spec fn in_order(ids: Set<usize>) -> Seq<usize> {
    choose|listed: Seq<usize>| ascending(listed) && #[trigger] listed.to_set() == ids
}

/// There is one ascending list of a set's members.
pub proof fn lemma_ascending_is_unique(left: Seq<usize>, right: Seq<usize>)
    requires
        ascending(left),
        ascending(right),
        left.to_set() == right.to_set(),
    ensures
        left == right,
    decreases left.len(),
{
    if left.len() == 0 {
        if right.len() > 0 {
            assert(right.to_set().contains(right[0]));
            assert(left.to_set().contains(right[0]));
        }
        assert(left =~= right);
    } else {
        assert(left.to_set().contains(left.last()));
        assert(right.to_set().contains(left.last()));
        assert(right.to_set().contains(right.last()));
        assert(left.to_set().contains(right.last()));
        assert(left.last() == right.last());
        let shorter_left = left.drop_last();
        let shorter_right = right.drop_last();
        assert forall|id: usize|
            shorter_left.to_set().contains(id) implies shorter_right.to_set().contains(id) by {
            let at = choose|at: int| 0 <= at < shorter_left.len() && shorter_left[at] == id;
            assert(left[at] == id);
            assert(left.to_set().contains(id));
            assert(right.to_set().contains(id));
            let to = choose|to: int| 0 <= to < right.len() && right[to] == id;
            assert(to != right.len() - 1);
            assert(shorter_right[to] == id);
        }
        assert forall|id: usize|
            shorter_right.to_set().contains(id) implies shorter_left.to_set().contains(id) by {
            let at = choose|at: int| 0 <= at < shorter_right.len() && shorter_right[at] == id;
            assert(right[at] == id);
            assert(right.to_set().contains(id));
            assert(left.to_set().contains(id));
            let to = choose|to: int| 0 <= to < left.len() && left[to] == id;
            assert(to != left.len() - 1);
            assert(shorter_left[to] == id);
        }
        assert(shorter_left.to_set() =~= shorter_right.to_set());
        lemma_ascending_is_unique(shorter_left, shorter_right);
        assert(left =~= shorter_left.push(left.last()));
        assert(right =~= shorter_right.push(right.last()));
    }
}

proof fn lemma_insert_in_order(ids: Seq<usize>, id: usize) -> (longer: Seq<usize>)
    requires
        ascending(ids),
        !ids.contains(id),
    ensures
        ascending(longer),
        longer.to_set() == ids.to_set().insert(id),
    decreases ids.len(),
{
    if ids.len() == 0 || ids.last() < id {
        let longer = ids.push(id);
        assert forall|other: usize| longer.to_set().contains(other) <==> ids.to_set().insert(
            id,
        ).contains(other) by {
            if ids.contains(other) {
                let at = choose|at: int| 0 <= at < ids.len() && ids[at] == other;
                assert(longer[at] == other);
            }
            assert(longer.last() == id);
        }
        assert(longer.to_set() =~= ids.to_set().insert(id));
        longer
    } else {
        let shorter = ids.drop_last();
        let last = ids.last();
        assert(ids[ids.len() - 1] == last);
        assert forall|other: usize| shorter.contains(other) implies ids.contains(other) && other
            < last by {
            let at = choose|at: int| 0 <= at < shorter.len() && shorter[at] == other;
            assert(ids[at] == other);
        }
        assert forall|other: usize| ids.contains(other) implies shorter.contains(other) || other
            == last by {
            let at = choose|at: int| 0 <= at < ids.len() && ids[at] == other;
            if at < ids.len() - 1 {
                assert(shorter[at] == other);
            }
        }
        let middle = lemma_insert_in_order(shorter, id);
        let longer = middle.push(last);
        assert forall|at: int| 0 <= at < middle.len() implies middle[at] < last by {
            assert(middle.to_set().contains(middle[at]));
        }
        assert forall|other: usize| longer.to_set().contains(other) <==> ids.to_set().insert(
            id,
        ).contains(other) by {
            assert(middle.to_set().contains(other) == middle.contains(other));
            if middle.contains(other) {
                let at = choose|at: int| 0 <= at < middle.len() && middle[at] == other;
                assert(longer[at] == other);
            }
            assert(longer[longer.len() - 1] == last);
        }
        assert(longer.to_set() =~= ids.to_set().insert(id));
        longer
    }
}

proof fn lemma_listing(ids: Set<usize>) -> (listed: Seq<usize>)
    requires
        ids.finite(),
    ensures
        ascending(listed),
        listed.to_set() == ids,
    decreases ids.len(),
{
    if ids.len() == 0 {
        let listed = Seq::<usize>::empty();
        assert(listed.to_set() =~= ids);
        listed
    } else {
        let id = ids.choose();
        let shorter = lemma_listing(ids.remove(id));
        assert(!shorter.to_set().contains(id));
        let listed = lemma_insert_in_order(shorter, id);
        assert(listed.to_set() =~= ids);
        listed
    }
}

/// Every finite set of devices can be listed in ascending order.
pub proof fn lemma_in_order(ids: Set<usize>)
    requires
        ids.finite(),
    ensures
        ascending(in_order(ids)),
        forall|id: usize| #[trigger] in_order(ids).contains(id) <==> ids.contains(id),
{
    let listed = lemma_listing(ids);
    assert(ascending(listed) && listed.to_set() == ids);
    let ordered = in_order(ids);
    assert(ordered.to_set() == ids);
    assert forall|id: usize| #[trigger] ordered.contains(id) <==> ids.contains(id) by {
        assert(ordered.to_set().contains(id) == ordered.contains(id));
    }
}

/// A set of keys for each of some devices.
pub struct DeviceKeys {
    table: BTreeMap<usize, KeySet>,
}

impl View for DeviceKeys {
    type V = Map<usize, Set<Key>>;

    closed spec fn view(&self) -> Map<usize, Set<Key>> {
        self.table@.map_values(|keys: KeySet| keys@)
    }
}

/// A table holds finitely many devices.
pub proof fn lemma_finitely_many(devices: DeviceKeys)
    ensures
        devices@.dom().finite(),
{
    broadcast use vstd::std_specs::btree::group_btree_axioms;
    assert(devices@.dom() =~= devices.table@.dom());
}

impl DeviceKeys {
    pub fn new() -> (devices: DeviceKeys)
        ensures
            devices@ == Map::<usize, Set<Key>>::empty(),
    {
        let devices = DeviceKeys { table: BTreeMap::new() };
        proof {
            assert(devices@ =~= Map::<usize, Set<Key>>::empty());
        }
        devices
    }

    pub fn contains(&self, id: usize) -> (found: bool)
        ensures
            found == self@.contains_key(id),
    {
        broadcast use vstd::std_specs::btree::group_btree_axioms;
        broadcast use vstd::laws_cmp::group_laws_cmp;
        self.table.contains_key(&id)
    }

    pub fn get(&self, id: usize) -> (found: Option<&KeySet>)
        ensures
            match found {
                Some(keys) => self@.contains_key(id) && self@[id] == keys@,
                None => !self@.contains_key(id),
            },
    {
        broadcast use vstd::std_specs::btree::group_btree_axioms;
        broadcast use vstd::laws_cmp::group_laws_cmp;
        self.table.get(&id)
    }

    pub fn insert(&mut self, id: usize, keys: KeySet)
        ensures
            final(self)@ == old(self)@.insert(id, keys@),
    {
        broadcast use vstd::std_specs::btree::group_btree_axioms;
        broadcast use vstd::laws_cmp::group_laws_cmp;
        self.table.insert(id, keys);
        proof {
            assert(self@ =~= old(self)@.insert(id, keys@));
        }
    }

    pub fn remove(&mut self, id: usize) -> (removed: Option<KeySet>)
        ensures
            final(self)@ == old(self)@.remove(id),
            match removed {
                Some(keys) => old(self)@.contains_key(id) && old(self)@[id] == keys@,
                None => !old(self)@.contains_key(id),
            },
    {
        broadcast use vstd::std_specs::btree::group_btree_axioms;
        broadcast use vstd::laws_cmp::group_laws_cmp;
        let removed = self.table.remove(&id);
        proof {
            assert(self@ =~= old(self)@.remove(id));
        }
        removed
    }

    /// The devices of the table, in ascending order.
    pub fn ids(&self) -> (ids: Vec<usize>)
        ensures
            ids@ == in_order(self@.dom()),
            ascending(ids@),
            ids@.to_set() == self@.dom(),
    {
        broadcast use vstd::std_specs::btree::group_btree_axioms;
        broadcast use vstd::laws_cmp::group_laws_cmp;
        let mut ids: Vec<usize> = Vec::new();
        let pairs = self.table.iter();
        let ghost listed = vstd::std_specs::iter::IteratorSpec::remaining(&pairs).map_values(
            |pair: (&usize, &KeySet)| *pair.0,
        );
        for pair in walk: pairs
            invariant
                walk.seq().map_values(|pair: (&usize, &KeySet)| *pair.0) == listed,
                ids@ == listed.take(walk.index()),
        {
            ids.push(*pair.0);
            proof {
                assert(ids@ =~= listed.take(walk.index() + 1));
            }
        }
        proof {
            assert(ids@ =~= listed);
            assert(vstd::std_specs::btree::increasing_seq(listed));
            assert forall|left: int, right: int| 0 <= left < right < listed.len() implies listed[left]
                < listed[right] by {
                assert(vstd::std_specs::cmp::OrdSpec::cmp_spec(
                    &listed[left],
                    &listed[right],
                ) is Less);
            }
            let walked = vstd::std_specs::iter::IteratorSpec::remaining(
                &vstd::std_specs::btree::spec_btree_map_iter(&self.table),
            );
            assert forall|id: usize| self@.dom().contains(id) implies ids@.to_set().contains(id) by {
                assert(self.table@.contains_key(id));
                assert(walked.contains((&id, &self.table@[id])));
                let at = choose|at: int| 0 <= at < walked.len() && walked[at] == (&id, &self.table@[id]);
                assert(listed[at] == id);
            }
            assert forall|id: usize| ids@.to_set().contains(id) implies self@.dom().contains(id) by {
                let at = choose|at: int| 0 <= at < listed.len() && listed[at] == id;
                assert(self.table@.contains_key(*walked[at].0));
            }
            assert(ids@.to_set() =~= self@.dom());
            lemma_ascending_is_unique(ids@, in_order(self@.dom()));
        }
        ids
    }
}

} // verus!
