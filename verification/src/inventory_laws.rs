//! What a search, a takeover, a failed attempt and the end of a takeover do to an inventory.

use vstd::prelude::*;

use crate::claim::ClaimError;
use crate::config::DeviceGroup;
use crate::entry::Entry;
use crate::inventory::InventoryView;
use crate::monitor::{ActivationId, CandidateDevice, CandidateState, Release, ReleaseCause};
use crate::scan::SnapshotView;

verus! {

/// A search keeps the time at which a device appeared for as long as the device is there, and gives
/// a new one the time of the search. A device that is gone has no time, so that it appears anew
/// when it comes back.
pub proof fn searches_keep_the_times(
    before: InventoryView,
    found: Map<Entry, SnapshotView>,
    groups: Seq<DeviceGroup>,
    resolved: Seq<Seq<Option<Seq<u8>>>>,
    now: u64,
    after: InventoryView,
    entry: Entry,
)
    requires
        before.wf(),
        crate::inventory::is_searched(before, found, groups, resolved, now, after),
    ensures
        after.seen.contains_key(entry) == after.candidates.contains_key(entry),
        after.candidates.contains_key(entry) && before.candidates.contains_key(entry)
            ==> after.seen[entry] == before.seen[entry],
        after.candidates.contains_key(entry) && !before.candidates.contains_key(entry)
            ==> after.seen[entry] == now,
        after.next_id == before.next_id,
        after.grouped == before.grouped,
{
    let time = crate::monitor::lookup(after.seen, entry);
    assert(after.seen.contains_key(entry) == (time is Some));
    assert(before.seen.dom().contains(entry) == before.candidates.dom().contains(entry));
}

/// A search puts a device that is not taken over at the first candidate, of the first group, that
/// it matches, and at no place where it matches none. Nothing has a place where there are no
/// groups, or where it is no candidate.
pub proof fn searches_place_devices_anew(
    before: InventoryView,
    found: Map<Entry, SnapshotView>,
    groups: Seq<DeviceGroup>,
    resolved: Seq<Seq<Option<Seq<u8>>>>,
    now: u64,
    after: InventoryView,
    entry: Entry,
)
    requires
        before.wf(),
        crate::inventory::is_searched(before, found, groups, resolved, now, after),
    ensures
        after.places.contains_key(entry) ==> before.grouped && after.candidates.contains_key(entry),
        before.grouped && after.candidates.contains_key(entry) && !(after.candidates[entry].state
            is Active) ==> {
            let facts = after.candidates[entry].info;
            if after.places.contains_key(entry) {
                let place = after.places[entry];
                &&& place.group < groups.len()
                &&& place.rank < groups[place.group as int].candidates@.len()
                &&& groups[place.group as int].candidates@[place.rank as int].matcher.accepts(
                    facts,
                    resolved[place.group as int][place.rank as int],
                )
                &&& forall|group: int, rank: int|
                    #![trigger groups[group].candidates@[rank]]
                    0 <= group <= place.group && 0 <= rank < groups[group].candidates@.len() && (
                    group < place.group || rank < place.rank)
                        ==> !groups[group].candidates@[rank].matcher.accepts(
                        facts,
                        resolved[group][rank],
                    )
            } else {
                forall|group: int, rank: int|
                    #![trigger groups[group].candidates@[rank]]
                    0 <= group < groups.len() && 0 <= rank < groups[group].candidates@.len()
                        ==> !groups[group].candidates@[rank].matcher.accepts(
                        facts,
                        resolved[group][rank],
                    )
            }
        },
{
    if before.grouped && after.candidates.contains_key(entry) {
        assert(after.places.contains_key(entry) || !after.places.contains_key(entry));
    }
}

/// A takeover makes one candidate active under the next number and nothing else of the inventory
/// changes. The number is used up.
pub proof fn takeovers_touch_one_device(before: InventoryView, entry: Entry, other: Entry)
    requires
        before.candidates.contains_key(entry),
        before.next_id < u64::MAX,
    ensures
        ({
            let after = before.taken_over(entry);
            &&& after.candidates.contains_key(entry)
            &&& after.candidates[entry].state == (CandidateState::Active {
                activation_id: before.next_id,
                removal_sent: false,
            })
            &&& after.candidates[entry].info == before.candidates[entry].info
            &&& after.next_id == before.next_id + 1
            &&& other != entry ==> after.candidates.contains_key(other)
                == before.candidates.contains_key(other) && after.candidates[other]
                == before.candidates[other]
            &&& after.places == before.places
            &&& after.seen == before.seen
            &&& after.grouped == before.grouped
        }),
{
}

/// A failed attempt changes what is known of one candidate, or drops it from everything that is
/// known. It takes no number.
pub proof fn failures_touch_one_device(
    before: InventoryView,
    entry: Entry,
    other: Entry,
    error: ClaimError,
    now: u64,
)
    requires
        before.candidates.contains_key(entry),
    ensures
        ({
            let after = before.failed(entry, error, now);
            &&& other != entry ==> after.candidates.contains_key(other)
                == before.candidates.contains_key(other) && after.candidates[other]
                == before.candidates[other]
            &&& other != entry ==> after.places.contains_key(other) == before.places.contains_key(
                other,
            ) && after.places[other] == before.places[other]
            &&& other != entry ==> after.seen.contains_key(other) == before.seen.contains_key(other)
                && after.seen[other] == before.seen[other]
            &&& after.candidates.contains_key(entry) ==> after.places == before.places && after.seen
                == before.seen
            &&& !after.candidates.contains_key(entry) ==> !after.places.contains_key(entry)
                && !after.seen.contains_key(entry)
            &&& after.candidates.contains_key(entry) == !crate::claim_laws::drops(error)
            &&& after.next_id == before.next_id
            &&& after.grouped == before.grouped
        }),
{
}

/// The end of a takeover makes the one candidate that has its number ready again, or leaves it
/// alone for five seconds where the takeover failed. Nothing else of the inventory changes, and
/// nothing at all where no candidate has the number.
pub proof fn releases_touch_one_device(
    before: InventoryView,
    id: ActivationId,
    cause: ReleaseCause,
    now: u64,
    after: InventoryView,
    entry: Entry,
)
    requires
        before.wf(),
        before.candidates.contains_key(entry),
        now + 5000 <= u64::MAX,
        crate::inventory::is_released(before, Release { activation_id: id, cause }, now, after),
    ensures
        after.candidates.contains_key(entry),
        after.places == before.places,
        after.seen == before.seen,
        after.next_id == before.next_id,
        after.grouped == before.grouped,
        match before.candidates[entry].state {
            CandidateState::Active { activation_id, .. } => if activation_id == id {
                &&& after.candidates[entry].state == match cause {
                    ReleaseCause::Disconnected => CandidateState::Ready,
                    ReleaseCause::Failed => CandidateState::Blocked { until: (now + 5000) as u64 },
                }
                &&& after.candidates[entry].info == before.candidates[entry].info
                &&& after.candidates[entry].aliases == before.candidates[entry].aliases
            } else {
                after.candidates[entry] == before.candidates[entry]
            },
            _ => after.candidates[entry] == before.candidates[entry],
        },
{
    let release = Release { activation_id: id, cause };
    if crate::monitor::is_active_with(before.candidates[entry], id) {
        assert forall|held: Entry| #[trigger] before.candidates.contains_key(held)
            && crate::monitor::is_active_with(before.candidates[held], id) implies held == entry by {
            if held != entry {
                assert(before.candidates[held].state is Active);
                assert(before.candidates[entry].state is Active);
            }
        }
    }
    if after != before {
        let held = choose|held: Entry| #[trigger]
            before.candidates.contains_key(held) && crate::monitor::is_active_with(
                before.candidates[held],
                release.activation_id,
            ) && after == (InventoryView {
                candidates: before.candidates.insert(
                    held,
                    before.candidates[held].released(release.cause, now),
                ),
                ..before
            });
        assert(crate::monitor::is_active_with(before.candidates[held], id));
    }
}

/// A device that was taken over and disconnected is ready again as it was before, but that its
/// failures are forgotten and its number is used up.
pub proof fn takeovers_can_be_repeated(
    before: InventoryView,
    entry: Entry,
    now: u64,
    after: InventoryView,
)
    requires
        before.wf(),
        before.taken_over(entry).wf(),
        before.candidates.contains_key(entry),
        before.candidates[entry].state is Ready,
        before.next_id < u64::MAX,
        now + 5000 <= u64::MAX,
        crate::inventory::is_released(
            before.taken_over(entry),
            Release { activation_id: before.next_id, cause: ReleaseCause::Disconnected },
            now,
            after,
        ),
    ensures
        after.candidates.contains_key(entry),
        after.candidates[entry].state is Ready,
        after.candidates[entry].info == before.candidates[entry].info,
        after.places == before.places,
        after.seen == before.seen,
        after.next_id == before.next_id + 1,
{
    releases_touch_one_device(
        before.taken_over(entry),
        before.next_id,
        ReleaseCause::Disconnected,
        now,
        after,
        entry,
    );
}

/// A candidate that waits is looked at again when its wait is over, whatever its group does.
pub proof fn waiting_devices_are_looked_at_again(before: InventoryView, entry: Entry, now: u64)
    ensures
        before.candidates.contains_key(entry) ==> (before.candidates[entry].state
            matches CandidateState::Waiting { until } ==> before.wakes(entry, now) == Some(
            until as int,
        )),
        before.candidates.contains_key(entry) ==> (before.candidates[entry].state
            matches CandidateState::Blocked { until } ==> before.wakes(entry, now) == Some(
            until as int,
        )),
        !before.candidates.contains_key(entry) ==> before.wakes(entry, now) is None,
{
}

/// Two devices that are taken over are in different groups, where both are in one, and have
/// different numbers. Both numbers were given out.
pub proof fn groups_have_one_takeover(
    inventory: InventoryView,
    one: Entry,
    other: Entry,
    id: ActivationId,
    another: ActivationId,
)
    requires
        inventory.wf(),
        one != other,
        inventory.candidates.contains_key(one),
        inventory.candidates.contains_key(other),
        inventory.candidates[one].state matches CandidateState::Active { activation_id, .. }
            && activation_id == id,
        inventory.candidates[other].state matches CandidateState::Active { activation_id, .. }
            && activation_id == another,
    ensures
        inventory.places.contains_key(one) && inventory.places.contains_key(other)
            ==> inventory.places[one].group != inventory.places[other].group,
        id != another,
        id < inventory.next_id,
        another < inventory.next_id,
{
    let left = inventory.candidates[one];
    let right = inventory.candidates[other];
    assert(left.state is Active && right.state is Active);
    if inventory.places.contains_key(one) && inventory.places.contains_key(other) {
        let members = inventory.members();
        assert(members.contains_key(one) && members.contains_key(other));
        assert(members[one].state is Active && members[other].state is Active);
    }
}

/// Every device that a search found is listed once, with its facts and its names, and nothing else
/// is listed.
pub proof fn found_devices_are_listed(
    devices: Seq<CandidateDevice>,
    order: Seq<Entry>,
    found: Map<Entry, SnapshotView>,
    entry: Entry,
    at: int,
)
    requires
        crate::monitor::lists(devices, order, found),
    ensures
        found.contains_key(entry) && found[entry] is Candidate ==> exists|to: int|
            0 <= to < devices.len() && order[to] == entry && (#[trigger] devices[to]).facts() == (
                found[entry]->info,
                found[entry]->Candidate_aliases,
            ),
        0 <= at < devices.len() ==> found.contains_key(order[at]) && found[order[at]] is Candidate
            && devices[at].facts() == (
            found[order[at]]->info,
            found[order[at]]->Candidate_aliases,
        ),
        forall|left: int, right: int|
            0 <= left < right < devices.len() ==> order[left] != order[right],
{
    if found.contains_key(entry) && found[entry] is Candidate {
        assert(order.contains(entry));
        let to = choose|to: int| 0 <= to < order.len() && order[to] == entry;
        assert(devices[to].facts() == (found[entry]->info, found[entry]->Candidate_aliases));
    }
    if 0 <= at < devices.len() {
        assert(order.contains(order[at]));
        assert(devices[at].facts() == (
            found[order[at]]->info,
            found[order[at]]->Candidate_aliases,
        ));
    }
}

} // verus!
