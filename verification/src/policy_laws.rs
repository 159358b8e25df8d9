//! Which devices are asked for, and which of a group is taken over.

use vstd::prelude::*;

use crate::config::{DeviceGroup, DeviceMatch};
use crate::entry::Entry;
use crate::groups::Member;
use crate::interceptor::DeviceFacts;
use crate::inventory::InventoryView;
use crate::monitor::{CandidateState, CandidateView};
use crate::policy::Place;

verus! {

/// Each field of a rule binds by itself, whichever others the rule has: a device that differs from
/// it in that field is not accepted. A path must lead to the node of the device.
pub proof fn every_field_binds(rule: DeviceMatch, facts: DeviceFacts, resolved: Option<Seq<u8>>)
    ensures
        rule.path is Some && resolved is None ==> !rule.accepts(facts, resolved),
        rule.path is Some ==> (resolved matches Some(path) ==> path != facts.path ==> !rule.accepts(
            facts,
            resolved,
        )),
        rule.name matches Some(name) ==> name@ != facts.name ==> !rule.accepts(facts, resolved),
        rule.vendor matches Some(vendor) ==> vendor != facts.vendor ==> !rule.accepts(
            facts,
            resolved,
        ),
        rule.product matches Some(product) ==> product != facts.product ==> !rule.accepts(
            facts,
            resolved,
        ),
        rule.version matches Some(version) ==> version != facts.version ==> !rule.accepts(
            facts,
            resolved,
        ),
        rule.origin matches Some(origin) ==> origin != facts.origin ==> !rule.accepts(
            facts,
            resolved,
        ),
        rule.bustype matches Some(bustype) ==> bustype != facts.bustype ==> !rule.accepts(
            facts,
            resolved,
        ),
{
}

/// A device that agrees with every field that a rule has is accepted. Fields that the rule does not
/// have, and the path that a rule without one would lead to, make no difference.
pub proof fn agreeing_devices_are_accepted(
    rule: DeviceMatch,
    facts: DeviceFacts,
    resolved: Option<Seq<u8>>,
)
    requires
        rule.path is Some ==> resolved is Some && resolved->0 == facts.path,
        rule.name is Some ==> rule.name->0@ == facts.name,
        rule.vendor is Some ==> rule.vendor->0 == facts.vendor,
        rule.product is Some ==> rule.product->0 == facts.product,
        rule.version is Some ==> rule.version->0 == facts.version,
        rule.origin is Some ==> rule.origin->0 == facts.origin,
        rule.bustype is Some ==> rule.bustype->0 == facts.bustype,
    ensures
        rule.accepts(facts, resolved),
{
}

/// A rule is empty exactly if none of its fields is set, and it accepts whatever device there is,
/// wherever a path leads.
pub proof fn empty_rules_accept_everything(rule: DeviceMatch)
    ensures
        rule.has_no_field() ==> forall|facts: DeviceFacts, resolved: Option<Seq<u8>>|
            rule.accepts(facts, resolved),
        !rule.has_no_field() <==> rule.path is Some || rule.name is Some || rule.vendor is Some
            || rule.product is Some || rule.version is Some || rule.origin is Some
            || rule.bustype is Some,
{
}

/// A list accepts a device exactly if one of its rules does. Nothing is accepted by an empty list,
/// and a longer list accepts whatever a shorter one does.
pub proof fn one_rule_is_enough(
    rules: Seq<DeviceMatch>,
    resolved: Seq<Option<Seq<u8>>>,
    rule: DeviceMatch,
    path: Option<Seq<u8>>,
    facts: DeviceFacts,
)
    requires
        rules.len() == resolved.len(),
    ensures
        rules.len() == 0 ==> !crate::listing::any_accepts(rules, resolved, facts),
        crate::listing::any_accepts(rules.push(rule), resolved.push(path), facts)
            == (crate::listing::any_accepts(rules, resolved, facts) || rule.accepts(facts, path)),
{
    let longer = rules.push(rule);
    let paths = resolved.push(path);
    if crate::listing::any_accepts(rules, resolved, facts) {
        let at = choose|at: int|
            0 <= at < rules.len() && (#[trigger] rules[at]).accepts(facts, resolved[at]);
        assert(longer[at] == rules[at] && paths[at] == resolved[at]);
    }
    if rule.accepts(facts, path) {
        assert(longer[rules.len() as int].accepts(facts, paths[rules.len() as int]));
    }
    if crate::listing::any_accepts(longer, paths, facts) {
        let at = choose|at: int|
            0 <= at < longer.len() && (#[trigger] longer[at]).accepts(facts, paths[at]);
        if at < rules.len() {
            assert(rules[at].accepts(facts, resolved[at]));
        }
    }
}

/// Whether a device matches a candidate of a group.
pub open spec fn fits(
    groups: Seq<DeviceGroup>,
    resolved: Seq<Seq<Option<Seq<u8>>>>,
    facts: DeviceFacts,
    group: int,
    rank: int,
) -> bool {
    &&& 0 <= group < groups.len()
    &&& 0 <= rank < groups[group].candidates@.len()
    &&& groups[group].candidates@[rank].matcher.accepts(facts, resolved[group][rank])
}

/// With groups, a device is asked for exactly if it matches a candidate of one, whatever the
/// whitelist says. Without groups, it is exactly if the whitelist accepts it. Without either, every
/// device is.
pub proof fn groups_decide_before_the_whitelist(
    whitelist: Option<Seq<DeviceMatch>>,
    groups: Option<Seq<DeviceGroup>>,
    resolved_rules: Seq<Option<Seq<u8>>>,
    resolved_groups: Seq<Seq<Option<Seq<u8>>>>,
    facts: DeviceFacts,
)
    ensures
        ({
            let allowed = crate::policy::is_allowed(
                whitelist,
                groups,
                resolved_rules,
                resolved_groups,
                facts,
            );
            match groups {
                Some(groups) => allowed == exists|group: int, rank: int| #[trigger]
                    fits(groups, resolved_groups, facts, group, rank),
                None => match whitelist {
                    Some(rules) => allowed == exists|at: int|
                        0 <= at < rules.len() && (#[trigger] rules[at]).accepts(
                            facts,
                            resolved_rules[at],
                        ),
                    None => allowed,
                },
            }
        }),
{
    if let Some(groups) = groups {
        if crate::policy::is_grouped(groups, resolved_groups, facts) {
            let group = choose|at: int|
                0 <= at < groups.len() && !crate::listing::is_outside(
                    #[trigger] groups[at],
                    resolved_groups[at],
                    facts,
                );
            let rank = choose|at: int|
                0 <= at < groups[group].candidates@.len() && (
                #[trigger] groups[group].candidates@[at]).matcher.accepts(
                    facts,
                    resolved_groups[group][at],
                );
            assert(fits(groups, resolved_groups, facts, group, rank));
        }
        if exists|group: int, rank: int| #[trigger] fits(groups, resolved_groups, facts, group, rank) {
            let (group, rank) = choose|group: int, rank: int| #[trigger]
                fits(groups, resolved_groups, facts, group, rank);
            assert(groups[group].candidates@[rank].matcher.accepts(
                facts,
                resolved_groups[group][rank],
            ));
            assert(!crate::listing::is_outside(groups[group], resolved_groups[group], facts));
        }
    }
}

/// A device stands at the first candidate that it matches, of the first group that has one, and has
/// the delay that is configured there. It has no place exactly if it matches none.
pub proof fn devices_stand_at_their_first_match(
    groups: Seq<DeviceGroup>,
    resolved: Seq<Seq<Option<Seq<u8>>>>,
    facts: DeviceFacts,
    place: Option<Place>,
    group: int,
    rank: int,
)
    requires
        crate::policy::stands_at(groups, resolved, facts, place),
    ensures
        fits(groups, resolved, facts, group, rank) ==> place is Some,
        place matches Some(place) ==> {
            &&& fits(groups, resolved, facts, place.group as int, place.rank as int)
            &&& fits(groups, resolved, facts, group, rank) ==> place.group < group || (place.group
                == group && place.rank <= rank)
            &&& place.delay == match groups[place.group as int].candidates@[place.rank as int].grab_delay_ms {
                Some(delay) => delay,
                None => 0,
            }
        },
{
    if fits(groups, resolved, facts, group, rank) {
        assert(groups[group].candidates@[rank].matcher.accepts(facts, resolved[group][rank]));
        assert(!crate::listing::is_outside(groups[group], resolved[group], facts));
    }
}

/// A device may be taken over exactly if it is ready, its delay since it appeared is over, no other
/// device of its own group is taken over, and none of its own group that is preferred to it is there
/// and ready or waiting.
pub proof fn what_should_be_claimed_may_be(members: Map<Entry, Member>, entry: Entry, now: u64)
    ensures
        crate::groups::may_be_claimed(members, entry, now) <==> {
            &&& members.contains_key(entry)
            &&& members[entry].state == CandidateState::Ready
            &&& members[entry].seen + members[entry].place.delay <= now
            &&& forall|other: Entry| #[trigger]
                members.contains_key(other) && other != entry && members[other].place.group
                    == members[entry].place.group ==> !(members[other].state is Active) && !(
                members[other].place.rank < members[entry].place.rank && (members[other].state
                    == CandidateState::Ready || members[other].state is Waiting))
        },
{
}

/// Groups are independent: whether a device may be taken over depends on the devices of its own
/// group alone.
pub proof fn groups_are_independent(
    one: Map<Entry, Member>,
    other: Map<Entry, Member>,
    entry: Entry,
    now: u64,
)
    requires
        one.contains_key(entry),
        forall|device: Entry|
            #![trigger one.contains_key(device)]
            #![trigger other.contains_key(device)]
            (one.contains_key(device) && one[device].place.group == one[entry].place.group) == (
            other.contains_key(device) && other[device].place.group == one[entry].place.group),
        forall|device: Entry| #[trigger]
            one.contains_key(device) && one[device].place.group == one[entry].place.group
                ==> one[device] == other[device],
    ensures
        crate::groups::may_be_claimed(one, entry, now) == crate::groups::may_be_claimed(
            other,
            entry,
            now,
        ),
{
    assert(one[entry] == other[entry]);
    if crate::groups::may_be_claimed(one, entry, now) {
        assert forall|device: Entry| #[trigger] other.contains_key(device) && device
            != entry implies !other[device].excludes(other[entry]) by {
            if other[device].place.group == one[entry].place.group {
                assert(one.contains_key(device));
            }
        }
    }
    if crate::groups::may_be_claimed(other, entry, now) {
        assert forall|device: Entry| #[trigger] one.contains_key(device) && device
            != entry implies !one[device].excludes(one[entry]) by {
            if one[device].place.group == one[entry].place.group {
                assert(other.contains_key(device));
            }
        }
    }
}

/// A device that is ready stays so with time: once it may be taken over, it may until something
/// else changes.
pub proof fn delays_end_for_good(members: Map<Entry, Member>, entry: Entry, now: u64, later: u64)
    requires
        crate::groups::may_be_claimed(members, entry, now),
        now <= later,
    ensures
        crate::groups::may_be_claimed(members, entry, later),
{
}

/// The devices of groups are the candidates that have a place, each with its place, the time at
/// which it appeared and its state.
pub proof fn members_are_candidates_with_a_place(
    candidates: Map<Entry, CandidateView>,
    places: Map<Entry, Place>,
    seen: Map<Entry, u64>,
    entry: Entry,
)
    ensures
        ({
            let members = crate::groups::members_of(candidates, places, seen);
            &&& members.contains_key(entry) == (candidates.contains_key(entry)
                && places.contains_key(entry))
            &&& members.contains_key(entry) ==> members[entry].place == places[entry]
                && members[entry].seen == seen[entry] && members[entry].state
                == candidates[entry].state
        }),
{
}

/// A candidate is admitted to a takeover exactly if it is ready and, with groups, its group lets it.
pub proof fn ready_candidates_are_admitted(inventory: InventoryView, entry: Entry, now: u64)
    ensures
        !inventory.grouped ==> inventory.admits(entry, now) == (inventory.candidates.contains_key(
            entry,
        ) && inventory.candidates[entry].state == CandidateState::Ready),
        inventory.grouped ==> inventory.admits(entry, now) == (inventory.candidates.contains_key(
            entry,
        ) && inventory.candidates[entry].state == CandidateState::Ready
            && crate::groups::may_be_claimed(
            crate::groups::members_of(inventory.candidates, inventory.places, inventory.seen),
            entry,
            now,
        )),
{
}

/// Something can change by itself for a candidate that waits or is blocked, at the end of its wait,
/// and for one that is ready and in a group, at the end of its delay where that is ahead.
pub proof fn waits_and_delays_come_to_an_end(inventory: InventoryView, entry: Entry, now: u64)
    ensures
        inventory.wakes(entry, now) == if !inventory.candidates.contains_key(entry) {
            None
        } else {
            match inventory.candidates[entry].state {
                CandidateState::Waiting { until } => Some(until as int),
                CandidateState::Blocked { until } => Some(until as int),
                CandidateState::Ready => if inventory.places.contains_key(entry)
                    && inventory.seen[entry] + inventory.places[entry].delay > now {
                    Some(inventory.seen[entry] + inventory.places[entry].delay)
                } else {
                    None
                },
                _ => None,
            }
        },
{
}

} // verus!
