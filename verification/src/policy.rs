//! Which devices the configuration asks for, and where it places them.

use vstd::prelude::*;

use crate::config::{DeviceGroup, DeviceMatch};
use crate::interceptor::{DeviceFacts, DeviceInfo};
use crate::listing::{any_matches, group_match};

verus! {

/// Where a device stands among those that can stand for one peripheral.
#[derive(Clone, Copy, Debug, PartialEq, Eq, Structural)]
pub struct Place {
    /// The group.
    pub group: usize,
    /// The place of the device among the candidates of the group. The first is preferred.
    pub rank: usize,
    /// How long the device is left to others after it appeared, in milliseconds.
    pub delay: u64,
}

/// Whether each group has as many paths as candidates.
pub open spec fn paths_fit(groups: Seq<DeviceGroup>, resolved: Seq<Vec<Option<Vec<u8>>>>) -> bool {
    &&& groups.len() == resolved.len()
    &&& forall|at: int|
        0 <= at < groups.len() ==> (#[trigger] groups[at]).candidates@.len()
            == resolved[at]@.len()
}

/// Whether a device matches a candidate of some group.
pub open spec fn is_grouped(
    groups: Seq<DeviceGroup>,
    resolved: Seq<Seq<Option<Seq<u8>>>>,
    facts: DeviceFacts,
) -> bool {
    exists|at: int|
        0 <= at < groups.len() && !crate::listing::is_outside(
            #[trigger] groups[at],
            resolved[at],
            facts,
        )
}

/// Whether a device is asked for. Groups come before a whitelist. Without either, all devices are.
pub open spec fn is_allowed(
    whitelist: Option<Seq<DeviceMatch>>,
    groups: Option<Seq<DeviceGroup>>,
    resolved_rules: Seq<Option<Seq<u8>>>,
    resolved_groups: Seq<Seq<Option<Seq<u8>>>>,
    facts: DeviceFacts,
) -> bool {
    match (whitelist, groups) {
        (_, Some(groups)) => is_grouped(groups, resolved_groups, facts),
        (Some(rules), None) => crate::listing::any_accepts(rules, resolved_rules, facts),
        (None, None) => true,
    }
}

/// What a list that may be missing holds.
pub open spec fn list_view<T>(list: Option<&[T]>) -> Option<Seq<T>> {
    match list {
        Some(list) => Some(list@),
        None => None,
    }
}

/// Whether a device is asked for. The paths of the rules and of the candidates are given as what
/// they lead to.
pub fn allows(
    whitelist: Option<&[DeviceMatch]>,
    groups: Option<&[DeviceGroup]>,
    resolved_rules: &[Option<Vec<u8>>],
    resolved_groups: &[Vec<Option<Vec<u8>>>],
    info: &DeviceInfo,
) -> (allowed: bool)
    requires
        groups matches Some(groups) ==> paths_fit(groups@, resolved_groups@),
        groups is None ==> (whitelist matches Some(rules) ==> rules@.len()
            == resolved_rules@.len()),
    ensures
        allowed == is_allowed(
            list_view(whitelist),
            list_view(groups),
            crate::listing::resolved_views(resolved_rules@),
            crate::listing::resolved_groups(resolved_groups@),
            info@,
        ),
{
    match groups {
        Some(groups) => group_match(groups, resolved_groups, info).is_some(),
        None => match whitelist {
            Some(rules) => any_matches(rules, resolved_rules, info),
            None => true,
        },
    }
}

/// How long the device at a place is left to others, in milliseconds.
pub open spec fn delay_at(groups: Seq<DeviceGroup>, group: int, rank: int) -> u64 {
    match groups[group].candidates@[rank].grab_delay_ms {
        Some(delay) => delay,
        None => 0,
    }
}

/// How long the device at a place, given by its group and its rank there, is left to others, in
/// milliseconds.
pub fn delay_of(groups: &[DeviceGroup], place: (usize, usize)) -> (delay: u64)
    requires
        place.0 < groups@.len(),
        place.1 < groups@[place.0 as int].candidates@.len(),
    ensures
        delay == delay_at(groups@, place.0 as int, place.1 as int),
{
    match groups[place.0].candidates[place.1].grab_delay_ms {
        Some(delay) => delay,
        None => 0,
    }
}

/// Whether a device stands at a place, or at none: the first group that it matches counts, and the
/// first candidate there.
pub open spec fn stands_at(
    groups: Seq<DeviceGroup>,
    resolved: Seq<Seq<Option<Seq<u8>>>>,
    facts: DeviceFacts,
    place: Option<Place>,
) -> bool {
    match place {
        Some(place) => {
            &&& place.group < groups.len()
            &&& crate::listing::is_first_candidate(
                groups[place.group as int],
                resolved[place.group as int],
                facts,
                place.rank as int,
            )
            &&& forall|earlier: int|
                0 <= earlier < place.group ==> crate::listing::is_outside(
                    #[trigger] groups[earlier],
                    resolved[earlier],
                    facts,
                )
            &&& place.delay == delay_at(groups, place.group as int, place.rank as int)
        },
        None => !is_grouped(groups, resolved, facts),
    }
}

/// The place of a device.
pub fn place_of(
    groups: &[DeviceGroup],
    resolved: &[Vec<Option<Vec<u8>>>],
    info: &DeviceInfo,
) -> (place: Option<Place>)
    requires
        paths_fit(groups@, resolved@),
    ensures
        stands_at(groups@, crate::listing::resolved_groups(resolved@), info@, place),
{
    match group_match(groups, resolved, info) {
        Some((group, rank)) => Some(
            Place { group, rank, delay: delay_of(groups, (group, rank)) },
        ),
        None => None,
    }
}

/// A device has at most one place.
pub proof fn places_are_unique(
    groups: Seq<DeviceGroup>,
    resolved: Seq<Seq<Option<Seq<u8>>>>,
    facts: DeviceFacts,
    one: Option<Place>,
    other: Option<Place>,
)
    requires
        stands_at(groups, resolved, facts, one),
        stands_at(groups, resolved, facts, other),
    ensures
        one == other,
{
    lemma_inside(groups, resolved, facts, one);
    lemma_inside(groups, resolved, facts, other);
    if let (Some(one), Some(other)) = (one, other) {
        assert(one.group == other.group);
        let candidates = groups[one.group as int].candidates@;
        assert(candidates[one.rank as int].matcher.accepts(
            facts,
            resolved[one.group as int][one.rank as int],
        ));
        assert(candidates[other.rank as int].matcher.accepts(
            facts,
            resolved[one.group as int][other.rank as int],
        ));
    }
}

/// With groups, the devices that are asked for are those that have a place.
pub proof fn placed_devices_are_allowed(
    whitelist: Option<Seq<DeviceMatch>>,
    groups: Seq<DeviceGroup>,
    resolved_rules: Seq<Option<Seq<u8>>>,
    resolved_groups: Seq<Seq<Option<Seq<u8>>>>,
    facts: DeviceFacts,
    place: Option<Place>,
)
    requires
        stands_at(groups, resolved_groups, facts, place),
    ensures
        is_allowed(whitelist, Some(groups), resolved_rules, resolved_groups, facts)
            == (place is Some),
{
    lemma_inside(groups, resolved_groups, facts, place);
}

proof fn lemma_inside(
    groups: Seq<DeviceGroup>,
    resolved: Seq<Seq<Option<Seq<u8>>>>,
    facts: DeviceFacts,
    place: Option<Place>,
)
    requires
        stands_at(groups, resolved, facts, place),
    ensures
        place matches Some(place) ==> place.group < groups.len() && !crate::listing::is_outside(
            groups[place.group as int],
            resolved[place.group as int],
            facts,
        ),
        is_grouped(groups, resolved, facts) == (place is Some),
{
    if let Some(place) = place {
        assert(groups[place.group as int].candidates@[place.rank as int].matcher.accepts(
            facts,
            resolved[place.group as int][place.rank as int],
        ));
    }
}

} // verus!
