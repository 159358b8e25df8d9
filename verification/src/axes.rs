//! The axes of a device: finite sets of relative ones, and finite maps from absolute ones to their
//! ranges.

use vstd::prelude::*;

use crate::abs::{AbsAxis, AbsInfo};
use crate::rel::RelAxis;

verus! {

/// A finite set of relative axes. Its view is the mathematical set.
#[derive(Debug)]
pub struct RelSet {
    axes: Vec<RelAxis>,
}

impl View for RelSet {
    type V = Set<RelAxis>;

    closed spec fn view(&self) -> Set<RelAxis> {
        self.axes@.to_set()
    }
}

impl RelSet {
    /// No axis is held twice.
    #[verifier::type_invariant]
    closed spec fn well_formed(self) -> bool {
        self.axes@.no_duplicates()
    }

    pub fn new() -> (set: RelSet)
        ensures
            set@ == Set::<RelAxis>::empty(),
    {
        let set = RelSet { axes: Vec::new() };
        proof {
            assert(set@ =~= Set::<RelAxis>::empty());
        }
        set
    }

    /// The set of the axes in a list, in which an axis may stand more than once.
    pub fn from_vec(axes: Vec<RelAxis>) -> (set: RelSet)
        ensures
            set@ == axes@.to_set(),
    {
        let mut kept: Vec<RelAxis> = Vec::new();
        let mut index: usize = 0;
        while index < axes.len()
            invariant
                index <= axes@.len(),
                kept@.no_duplicates(),
                forall|axis: RelAxis| #[trigger]
                    kept@.contains(axis) <==> axes@.take(index as int).contains(axis),
            decreases axes@.len() - index,
        {
            let axis = axes[index];
            let ghost before = kept@;
            proof {
                lemma_contains_pushed(axes@.take(index as int), axis);
                assert(axes@.take(index + 1) =~= axes@.take(index as int).push(axis));
                lemma_contains_pushed(before, axis);
            }
            if !holds_axis(&kept, axis) {
                kept.push(axis);
            }
            index = index + 1;
        }
        let set = RelSet { axes: kept };
        proof {
            assert(axes@.take(index as int) =~= axes@);
            assert(set@ =~= axes@.to_set());
        }
        set
    }

    /// The axes of the set, each once.
    pub fn to_vec(&self) -> (axes: Vec<RelAxis>)
        ensures
            axes@.no_duplicates(),
            axes@.to_set() == self@,
    {
        proof {
            use_type_invariant(self);
        }
        let mut axes: Vec<RelAxis> = Vec::new();
        let mut index: usize = 0;
        while index < self.axes.len()
            invariant
                index <= self.axes@.len(),
                axes@ == self.axes@.take(index as int),
            decreases self.axes@.len() - index,
        {
            axes.push(self.axes[index]);
            index = index + 1;
            proof {
                assert(axes@ =~= self.axes@.take(index as int));
            }
        }
        proof {
            assert(axes@ =~= self.axes@);
        }
        axes
    }
}

impl Clone for RelSet {
    fn clone(&self) -> (copy: RelSet)
        ensures
            copy@ == self@,
    {
        RelSet::from_vec(self.to_vec())
    }
}

fn holds_axis(axes: &Vec<RelAxis>, axis: RelAxis) -> (found: bool)
    ensures
        found == axes@.contains(axis),
{
    let mut index: usize = 0;
    while index < axes.len()
        invariant
            index <= axes@.len(),
            forall|at: int| 0 <= at < index ==> axes@[at] != axis,
        decreases axes@.len() - index,
    {
        if axes[index] == axis {
            return true;
        }
        index = index + 1;
    }
    false
}

proof fn lemma_contains_pushed<T>(items: Seq<T>, item: T)
    ensures
        forall|other: T| #[trigger]
            items.push(item).contains(other) <==> items.contains(other) || other == item,
{
    let after = items.push(item);
    assert forall|other: T| items.contains(other) || other == item implies #[trigger] after.contains(
        other,
    ) by {
        if other == item {
            assert(after[items.len() as int] == item);
        } else {
            let at = choose|at: int| 0 <= at < items.len() && items[at] == other;
            assert(after[at] == other);
        }
    }
}

/// The range of each axis in a list. Of several ranges of one axis the last one counts.
pub open spec fn ranges_of(pairs: Seq<(AbsAxis, AbsInfo)>) -> Map<AbsAxis, AbsInfo>
    decreases pairs.len(),
{
    if pairs.len() == 0 {
        Map::empty()
    } else {
        ranges_of(pairs.drop_last()).insert(pairs.last().0, pairs.last().1)
    }
}

/// Whether no axis of a list stands there twice.
pub open spec fn axes_are_distinct(pairs: Seq<(AbsAxis, AbsInfo)>) -> bool {
    forall|left: int, right: int|
        0 <= left < right < pairs.len() ==> (#[trigger] pairs[left]).0 != (
        #[trigger] pairs[right]).0
}

/// A finite map from absolute axes to their ranges. Its view is the mathematical map.
#[derive(Debug)]
pub struct AbsMap {
    ranges: Vec<(AbsAxis, AbsInfo)>,
}

impl View for AbsMap {
    type V = Map<AbsAxis, AbsInfo>;

    closed spec fn view(&self) -> Map<AbsAxis, AbsInfo> {
        ranges_of(self.ranges@)
    }
}

impl AbsMap {
    /// No axis is held twice.
    #[verifier::type_invariant]
    closed spec fn well_formed(self) -> bool {
        axes_are_distinct(self.ranges@)
    }

    pub fn new() -> (map: AbsMap)
        ensures
            map@ == Map::<AbsAxis, AbsInfo>::empty(),
    {
        AbsMap { ranges: Vec::new() }
    }

    /// The map of the axes in a list. Of several ranges of one axis the last one counts.
    pub fn from_vec(pairs: Vec<(AbsAxis, AbsInfo)>) -> (map: AbsMap)
        ensures
            map@ == ranges_of(pairs@),
    {
        let mut ranges: Vec<(AbsAxis, AbsInfo)> = Vec::new();
        let mut index: usize = 0;
        proof {
            assert(pairs@.take(0) =~= ranges@);
        }
        while index < pairs.len()
            invariant
                index <= pairs@.len(),
                axes_are_distinct(ranges@),
                ranges_of(ranges@) == ranges_of(pairs@.take(index as int)),
            decreases pairs@.len() - index,
        {
            let pair = pairs[index];
            let ghost before = ranges@;
            proof {
                assert(pairs@.take(index + 1).drop_last() =~= pairs@.take(index as int));
            }
            match find_axis(&ranges, pair.0) {
                Some(at) => {
                    ranges.set(at, pair);
                    proof {
                        lemma_replaced(before, at as int, pair);
                    }
                },
                None => {
                    ranges.push(pair);
                    proof {
                        assert(ranges@.drop_last() =~= before);
                    }
                },
            }
            index = index + 1;
        }
        proof {
            assert(pairs@.take(index as int) =~= pairs@);
        }
        AbsMap { ranges }
    }

    /// The axes of the map with their ranges, each axis once.
    pub fn to_vec(&self) -> (pairs: Vec<(AbsAxis, AbsInfo)>)
        ensures
            axes_are_distinct(pairs@),
            ranges_of(pairs@) == self@,
    {
        proof {
            use_type_invariant(self);
        }
        let mut pairs: Vec<(AbsAxis, AbsInfo)> = Vec::new();
        let mut index: usize = 0;
        while index < self.ranges.len()
            invariant
                index <= self.ranges@.len(),
                pairs@ == self.ranges@.take(index as int),
            decreases self.ranges@.len() - index,
        {
            pairs.push(self.ranges[index]);
            index = index + 1;
            proof {
                assert(pairs@ =~= self.ranges@.take(index as int));
            }
        }
        proof {
            assert(pairs@ =~= self.ranges@);
        }
        pairs
    }
}

impl Clone for AbsMap {
    fn clone(&self) -> (copy: AbsMap)
        ensures
            copy@ == self@,
    {
        AbsMap::from_vec(self.to_vec())
    }
}

fn find_axis(pairs: &Vec<(AbsAxis, AbsInfo)>, axis: AbsAxis) -> (found: Option<usize>)
    ensures
        match found {
            Some(at) => at < pairs@.len() && pairs@[at as int].0 == axis,
            None => forall|at: int| 0 <= at < pairs@.len() ==> (#[trigger] pairs@[at]).0 != axis,
        },
{
    let mut index: usize = 0;
    while index < pairs.len()
        invariant
            index <= pairs@.len(),
            forall|at: int| 0 <= at < index ==> (#[trigger] pairs@[at]).0 != axis,
        decreases pairs@.len() - index,
    {
        if pairs[index].0 == axis {
            return Some(index);
        }
        index = index + 1;
    }
    None
}

proof fn lemma_replaced(pairs: Seq<(AbsAxis, AbsInfo)>, at: int, pair: (AbsAxis, AbsInfo))
    requires
        axes_are_distinct(pairs),
        0 <= at < pairs.len(),
        pairs[at].0 == pair.0,
    ensures
        axes_are_distinct(pairs.update(at, pair)),
        ranges_of(pairs.update(at, pair)) == ranges_of(pairs).insert(pair.0, pair.1),
    decreases pairs.len(),
{
    let after = pairs.update(at, pair);
    let before = pairs.drop_last();
    if at == pairs.len() - 1 {
        assert(after.drop_last() =~= before);
        assert(ranges_of(after) =~= ranges_of(pairs).insert(pair.0, pair.1));
    } else {
        assert(axes_are_distinct(before)) by {
            assert forall|left: int, right: int| 0 <= left < right < before.len() implies (
            #[trigger] before[left]).0 != (#[trigger] before[right]).0 by {
                assert(before[left] == pairs[left] && before[right] == pairs[right]);
            }
        }
        lemma_replaced(before, at, pair);
        assert(after.drop_last() =~= before.update(at, pair));
        assert(pairs[at].0 != pairs[pairs.len() - 1].0);
        assert(ranges_of(after) =~= ranges_of(pairs).insert(pair.0, pair.1));
    }
    assert forall|left: int, right: int| 0 <= left < right < after.len() implies (
    #[trigger] after[left]).0 != (#[trigger] after[right]).0 by {
        assert(after[left].0 == pairs[left].0 && after[right].0 == pairs[right].0);
    }
}

/// A list in which no axis stands twice gives each axis the range that stands with it.
pub proof fn distinct_ranges_are_kept(pairs: Seq<(AbsAxis, AbsInfo)>, axis: AbsAxis, info: AbsInfo)
    requires
        axes_are_distinct(pairs),
    ensures
        pairs.contains((axis, info)) <==> ranges_of(pairs).contains_key(axis)
            && ranges_of(pairs)[axis] == info,
    decreases pairs.len(),
{
    if pairs.len() > 0 {
        let before = pairs.drop_last();
        assert forall|left: int, right: int| 0 <= left < right < before.len() implies (
        #[trigger] before[left]).0 != (#[trigger] before[right]).0 by {
            assert(before[left] == pairs[left] && before[right] == pairs[right]);
        }
        distinct_ranges_are_kept(before, axis, info);
        lemma_contains_pushed(before, pairs.last());
        assert(pairs =~= before.push(pairs.last()));
        if before.contains((axis, info)) {
            let at = choose|at: int| 0 <= at < before.len() && before[at] == (axis, info);
            assert(pairs[at].0 != pairs[pairs.len() - 1].0);
        }
    }
}

} // verus!
