//! Device groups: of the devices that can stand for one peripheral, at most one is taken over.

use vstd::prelude::*;

use crate::claim::ClaimError;
use crate::entry::{Entry, EntryMap};
use crate::monitor::{ActivationId, Candidate, CandidateState, CandidateView, ReleaseCause};
use crate::policy::Place;
use crate::scan::SnapshotView;

verus! {

/// A device of a group.
#[derive(Clone, Copy, Debug, PartialEq, Eq, Structural)]
pub struct Member {
    pub place: Place,
    /// When the device appeared.
    pub seen: u64,
    pub state: CandidateState,
}

impl Member {
    /// When the device has been left to others long enough.
    pub open spec fn due(self) -> int {
        self.seen + self.place.delay
    }

    /// Whether the device keeps those behind it from being taken over: it is there, and is busy or
    /// yet to be taken over.
    pub open spec fn suppresses(self) -> bool {
        self.state is Ready || self.state is Waiting
    }

    /// Whether the device keeps another one of the inventory from being taken over.
    pub open spec fn excludes(self, other: Member) -> bool {
        self.place.group == other.place.group && (self.state is Active || (self.place.rank
            < other.place.rank && self.suppresses()))
    }
}

/// The devices of an inventory that are in groups, with the places and the times at which they
/// appeared.
pub open spec fn members_of(
    candidates: Map<Entry, CandidateView>,
    places: Map<Entry, Place>,
    seen: Map<Entry, u64>,
) -> Map<Entry, Member> {
    Map::new(
        |entry: Entry| candidates.contains_key(entry) && places.contains_key(entry),
        |entry: Entry|
            Member { place: places[entry], seen: seen[entry], state: candidates[entry].state },
    )
}

/// Whether a device may be taken over: it is due, no device of its group is taken over, and none
/// that is preferred to it is there.
pub open spec fn may_be_claimed(members: Map<Entry, Member>, entry: Entry, now: u64) -> bool {
    &&& members.contains_key(entry)
    &&& members[entry].state is Ready
    &&& members[entry].due() <= now
    &&& forall|other: Entry| #[trigger]
        members.contains_key(other) && other != entry ==> !members[other].excludes(members[entry])
}

/// The time at which a device whose delay is not over yet is due.
pub open spec fn awaited(members: Map<Entry, Member>, entry: Entry, now: u64) -> Option<int> {
    if members.contains_key(entry) && members[entry].state is Ready && members[entry].due() > now {
        Some(members[entry].due())
    } else {
        None
    }
}

/// Whether the time at which it appeared is known of every candidate.
pub open spec fn all_seen<T>(candidates: Map<Entry, T>, seen: Map<Entry, u64>) -> bool {
    forall|entry: Entry| #[trigger]
        candidates.contains_key(entry) ==> seen.contains_key(entry)
}

/// What is known of a device as one of its group.
fn find_member(
    candidates: &EntryMap<Candidate>,
    places: &EntryMap<Place>,
    seen: &EntryMap<u64>,
    entry: Entry,
) -> (member: Option<Member>)
    requires
        all_seen(candidates@, seen@),
    ensures
        member == crate::monitor::lookup(
            members_of(crate::monitor::candidate_views(candidates@), places@, seen@),
            entry,
        ),
{
    let ghost members = members_of(
        crate::monitor::candidate_views(candidates@),
        places@,
        seen@,
    );
    match (candidates.get(entry), places.get(entry), seen.get(entry)) {
        (Some(candidate), Some(place), Some(seen)) => {
            assert(members.contains_key(entry));
            Some(Member { place: *place, seen: *seen, state: candidate.state })
        },
        _ => {
            assert(!members.contains_key(entry));
            None
        },
    }
}

/// Whether a device keeps another one of the inventory from being taken over.
fn excluded_by(member: &Member, other: &Member) -> (excluded: bool)
    ensures
        excluded == other.excludes(*member),
{
    other.place.group == member.place.group && match other.state {
        CandidateState::Active { .. } => true,
        CandidateState::Ready | CandidateState::Waiting { .. } => other.place.rank
            < member.place.rank,
        _ => false,
    }
}

/// Whether a device may be taken over.
pub fn may_claim(
    candidates: &EntryMap<Candidate>,
    places: &EntryMap<Place>,
    seen: &EntryMap<u64>,
    entry: Entry,
    now: u64,
) -> (allowed: bool)
    requires
        all_seen(candidates@, seen@),
    ensures
        allowed == may_be_claimed(
            members_of(crate::monitor::candidate_views(candidates@), places@, seen@),
            entry,
            now,
        ),
{
    let ghost members = members_of(
        crate::monitor::candidate_views(candidates@),
        places@,
        seen@,
    );
    let member = match find_member(candidates, places, seen, entry) {
        Some(member) => member,
        None => {
            return false;
        },
    };
    let ready = match member.state {
        CandidateState::Ready => true,
        _ => false,
    };
    if !ready || member.seen > now || member.place.delay > now - member.seen {
        return false;
    }
    let entries = candidates.entries();
    let mut index: usize = 0;
    while index < entries.len()
        invariant
            index <= entries@.len(),
            all_seen(candidates@, seen@),
            members == members_of(
                crate::monitor::candidate_views(candidates@),
                places@,
                seen@,
            ),
            members.contains_key(entry),
            member == members[entry],
            forall|at: int|
                0 <= at < index && members.contains_key(#[trigger] entries@[at]) && entries@[at]
                    != entry ==> !members[entries@[at]].excludes(member),
        decreases entries@.len() - index,
    {
        let other = entries[index];
        if other.device != entry.device || other.inode != entry.inode {
            if let Some(found) = find_member(candidates, places, seen, other) {
                if excluded_by(&member, &found) {
                    assert(members.contains_key(other) && other != entry);
                    return false;
                }
            }
        }
        index = index + 1;
    }
    proof {
        assert forall|other: Entry| #[trigger] members.contains_key(other) && other
            != entry implies !members[other].excludes(members[entry]) by {
            assert(entries@.contains(other));
            let at = choose|at: int| 0 <= at < entries@.len() && entries@[at] == other;
            assert(entries@[at] == other);
        }
    }
    true
}

/// The first time at which a delay is over that is not over yet.
pub fn next_due(
    candidates: &EntryMap<Candidate>,
    places: &EntryMap<Place>,
    seen: &EntryMap<u64>,
    now: u64,
) -> (due: Option<u64>)
    requires
        all_seen(candidates@, seen@),
    ensures
        ({
            let members = members_of(
                crate::monitor::candidate_views(candidates@),
                places@,
                seen@,
            );
            match due {
                Some(due) => {
                    &&& exists|entry: Entry| #[trigger] awaited(members, entry, now) == Some(
                        due as int,
                    )
                    &&& forall|entry: Entry| #[trigger] awaited(members, entry, now) matches Some(
                        other,
                    ) ==> due <= other
                },
                None => forall|entry: Entry| #[trigger] awaited(members, entry, now) matches Some(
                    other,
                ) ==> other > u64::MAX,
            }
        }),
{
    let ghost members = members_of(
        crate::monitor::candidate_views(candidates@),
        places@,
        seen@,
    );
    let entries = candidates.entries();
    let mut due: Option<u64> = None;
    let mut index: usize = 0;
    while index < entries.len()
        invariant
            index <= entries@.len(),
            all_seen(candidates@, seen@),
            members == members_of(
                crate::monitor::candidate_views(candidates@),
                places@,
                seen@,
            ),
            match due {
                Some(due) => exists|entry: Entry| #[trigger] awaited(members, entry, now) == Some(
                    due as int,
                ),
                None => true,
            },
            forall|at: int|
                0 <= at < index ==> (awaited(members, #[trigger] entries@[at], now) matches Some(
                    other,
                ) ==> match due {
                    Some(due) => due <= other,
                    None => other > u64::MAX,
                }),
        decreases entries@.len() - index,
    {
        let entry = entries[index];
        let ghost time = awaited(members, entry, now);
        if let Some(member) = find_member(candidates, places, seen, entry) {
            if let CandidateState::Ready = member.state {
                if let Some(other) = member.seen.checked_add(member.place.delay) {
                    if other > now {
                        assert(time == Some(other as int));
                        let sooner = match due {
                            Some(due) => other < due,
                            None => true,
                        };
                        if sooner {
                            due = Some(other);
                        }
                    }
                }
            }
        }
        index = index + 1;
    }
    proof {
        assert forall|entry: Entry| #[trigger] awaited(members, entry, now) is Some implies exists|
            at: int,
        | 0 <= at < entries@.len() && #[trigger] entries@[at] == entry by {
            assert(entries@.contains(entry));
        }
    }
    due
}

/// Whether no group has two devices that are taken over.
pub open spec fn one_active_each(members: Map<Entry, Member>) -> bool {
    forall|left: Entry, right: Entry|
        #![trigger members[left], members[right]]
        members.contains_key(left) && members.contains_key(right) && left != right
            && members[left].state is Active && members[right].state is Active
            ==> members[left].place.group != members[right].place.group
}

/// Whether every device that is taken over was so before, at the same place.
spec fn no_new_takeovers(before: Map<Entry, Member>, after: Map<Entry, Member>) -> bool {
    forall|entry: Entry|
        #![trigger after.contains_key(entry)]
        after.contains_key(entry) && after[entry].state is Active ==> before.contains_key(entry)
            && before[entry].state is Active && before[entry].place == after[entry].place
}

proof fn lemma_still_one_each(before: Map<Entry, Member>, after: Map<Entry, Member>)
    requires
        one_active_each(before),
        no_new_takeovers(before, after),
    ensures
        one_active_each(after),
{
    assert forall|left: Entry, right: Entry|
        #![trigger after[left], after[right]]
        after.contains_key(left) && after.contains_key(right) && left != right
            && after[left].state is Active && after[right].state is Active implies after[left].place.group
        != after[right].place.group by {
        assert(before[left].place == after[left].place);
        assert(before[right].place == after[right].place);
    }
}

/// At most one device of a group is taken over: a device that may be taken over becomes the only
/// one of its group.
pub proof fn claims_keep_one_active(
    candidates: Map<Entry, CandidateView>,
    places: Map<Entry, Place>,
    seen: Map<Entry, u64>,
    entry: Entry,
    id: ActivationId,
    now: u64,
)
    requires
        one_active_each(members_of(candidates, places, seen)),
        may_be_claimed(members_of(candidates, places, seen), entry, now),
    ensures
        one_active_each(
            members_of(
                candidates.insert(
                    entry,
                    crate::monitor::after_claim(candidates[entry], id),
                ),
                places,
                seen,
            ),
        ),
{
    let members = members_of(candidates, places, seen);
    let after = members_of(
        candidates.insert(entry, crate::monitor::after_claim(candidates[entry], id)),
        places,
        seen,
    );
    assert forall|left: Entry, right: Entry|
        #![trigger after[left], after[right]]
        after.contains_key(left) && after.contains_key(right) && left != right
            && after[left].state is Active && after[right].state is Active implies after[left].place.group
        != after[right].place.group by {
        assert(members.contains_key(left) && members.contains_key(right));
        if left != entry {
            assert(after[left] == members[left]);
        }
        if right != entry {
            assert(after[right] == members[right]);
        }
    }
}

/// A search keeps it that at most one device of each group is taken over, as the place of a device
/// that is taken over stays as it is.
pub proof fn searches_keep_one_active(
    known: Map<Entry, CandidateView>,
    found: Map<Entry, SnapshotView>,
    after: Map<Entry, CandidateView>,
    places: Map<Entry, Place>,
    later_places: Map<Entry, Place>,
    seen: Map<Entry, u64>,
    later_seen: Map<Entry, u64>,
)
    requires
        one_active_each(members_of(known, places, seen)),
        crate::monitor::is_refreshed(known, found, after),
        forall|entry: Entry| #[trigger]
            after.contains_key(entry) && after[entry].state is Active ==> crate::monitor::lookup(
                later_places,
                entry,
            ) == crate::monitor::lookup(places, entry),
    ensures
        one_active_each(members_of(after, later_places, later_seen)),
{
    let members = members_of(known, places, seen);
    let later = members_of(after, later_places, later_seen);
    assert forall|entry: Entry|
        #![trigger later.contains_key(entry)]
        later.contains_key(entry) && later[entry].state is Active implies members.contains_key(
        entry,
    ) && members[entry].state is Active && members[entry].place == later[entry].place by {
        assert(after.contains_key(entry));
        assert(crate::monitor::lookup(after, entry) == crate::monitor::refreshed_one(
            crate::monitor::lookup(known, entry),
            crate::monitor::lookup(found, entry),
        ));
    }
    lemma_still_one_each(members, later);
}

/// The end of a takeover and a failed attempt keep it that at most one device of each group is
/// taken over.
pub proof fn other_changes_keep_one_active(
    candidates: Map<Entry, CandidateView>,
    places: Map<Entry, Place>,
    seen: Map<Entry, u64>,
    entry: Entry,
    cause: ReleaseCause,
    error: ClaimError,
    now: u64,
)
    requires
        one_active_each(members_of(candidates, places, seen)),
        candidates.contains_key(entry),
    ensures
        one_active_each(
            members_of(
                candidates.insert(entry, candidates[entry].released(cause, now)),
                places,
                seen,
            ),
        ),
        one_active_each(
            members_of(
                crate::monitor::with_candidate(
                    candidates,
                    entry,
                    crate::monitor::after_failed_claim(candidates[entry], error, now),
                ),
                places,
                seen,
            ),
        ),
{
    let members = members_of(candidates, places, seen);
    lemma_still_one_each(
        members,
        members_of(
            candidates.insert(entry, candidates[entry].released(cause, now)),
            places,
            seen,
        ),
    );
    lemma_still_one_each(
        members,
        members_of(
            crate::monitor::with_candidate(
                candidates,
                entry,
                crate::monitor::after_failed_claim(candidates[entry], error, now),
            ),
            places,
            seen,
        ),
    );
}

/// The passing of time keeps it that at most one device of each group is taken over.
pub proof fn waits_keep_one_active(
    candidates: Map<Entry, CandidateView>,
    places: Map<Entry, Place>,
    seen: Map<Entry, u64>,
    now: u64,
)
    requires
        one_active_each(members_of(candidates, places, seen)),
    ensures
        one_active_each(
            members_of(
                candidates.map_values(
                    |candidate: CandidateView| crate::monitor::after_wait(candidate, now),
                ),
                places,
                seen,
            ),
        ),
{
    lemma_still_one_each(
        members_of(candidates, places, seen),
        members_of(
            candidates.map_values(
                |candidate: CandidateView| crate::monitor::after_wait(candidate, now),
            ),
            places,
            seen,
        ),
    );
}

/// A device that is taken over is not replaced, not even by a preferred one: while it lasts, no
/// other device of its group may be taken over.
pub proof fn active_devices_are_not_replaced(
    members: Map<Entry, Member>,
    active: Entry,
    other: Entry,
    now: u64,
)
    requires
        members.contains_key(active),
        members.contains_key(other),
        other != active,
        members[active].state is Active,
        members[other].place.group == members[active].place.group,
    ensures
        !may_be_claimed(members, other, now),
{
    assert(members[active].excludes(members[other]));
}

/// A preferred device that is there but busy, or held back by its delay, keeps the others of its
/// group from being taken over.
pub proof fn preferred_devices_suppress_others(
    members: Map<Entry, Member>,
    preferred: Entry,
    other: Entry,
    now: u64,
)
    requires
        members.contains_key(preferred),
        members.contains_key(other),
        members[other].place.group == members[preferred].place.group,
        members[preferred].place.rank < members[other].place.rank,
        members[preferred].suppresses(),
    ensures
        !may_be_claimed(members, other, now),
{
    assert(members[preferred].excludes(members[other]));
}

} // verus!
