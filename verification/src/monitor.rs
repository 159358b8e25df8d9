//! The inventory of input devices: which of them are taken over, and when to try again.
//!
//! Points in time are milliseconds since some start.

use vstd::prelude::*;

use crate::claim::ClaimError;
use crate::entry::{Entry, EntryMap};
use crate::interceptor::{DeviceFacts, DeviceInfo, Interceptor};
use crate::io_error::{is_disappearance, ErrorKind, IoError, EINTR, EIO, ENODEV, ENOENT};
use crate::path::{precedes, same_bytes};
use crate::pathset::PathSet;
use crate::scan::{AliasDirectory, Snapshot, SnapshotView};

verus! {

/// How long a candidate is left alone after a failure, in milliseconds.
pub const BLOCKED_RETRY: u64 = 5000;

/// How often the inventory is taken without a cause, in milliseconds.
pub const INVENTORY_INTERVAL: u64 = 2000;

/// The number of a takeover.
pub type ActivationId = u64;

/// A device that can be taken over.
#[derive(Debug)]
pub struct CandidateDevice {
    info: DeviceInfo,
    aliases: PathSet,
}

impl CandidateDevice {
    /// The facts and the other names of the device.
    pub closed spec fn facts(&self) -> (DeviceFacts, Seq<Seq<u8>>) {
        (self.info@, self.aliases@)
    }

    pub fn info(&self) -> (info: &DeviceInfo)
        ensures
            info@ == self.facts().0,
    {
        &self.info
    }

    pub fn aliases(&self) -> (aliases: &[Vec<u8>])
        ensures
            crate::pathset::path_views(aliases@) == self.facts().1,
            crate::pathset::paths_ascend(self.facts().1),
    {
        self.aliases.as_slice()
    }
}

/// A device that was taken over, with the number of the takeover.
#[derive(Debug)]
pub struct ActivatedDevice {
    id: ActivationId,
    interceptor: Interceptor,
}

impl ActivatedDevice {
    pub closed spec fn activation_id(&self) -> ActivationId {
        self.id
    }

    pub closed spec fn device(&self) -> Interceptor {
        self.interceptor
    }

    pub fn new(id: ActivationId, interceptor: Interceptor) -> (activated: ActivatedDevice)
        ensures
            activated.activation_id() == id,
            activated.device() == interceptor,
    {
        ActivatedDevice { id, interceptor }
    }

    pub fn id(&self) -> (id: ActivationId)
        ensures
            id == self.activation_id(),
    {
        self.id
    }

    pub fn into_interceptor(self) -> (interceptor: Interceptor)
        ensures
            interceptor == self.device(),
    {
        self.interceptor
    }
}

/// Why a takeover ended.
#[derive(Clone, Copy, Debug, PartialEq, Eq, Structural)]
pub enum ReleaseCause {
    Disconnected,
    Failed,
}

/// What the monitor reports.
#[derive(Debug)]
pub enum MonitorEvent {
    Activated(ActivatedDevice),
    Remove { activation_id: ActivationId },
}

/// The end of a takeover.
#[derive(Clone, Copy, Debug, PartialEq, Eq, Structural)]
pub struct Release {
    pub activation_id: ActivationId,
    pub cause: ReleaseCause,
}

/// How long to wait after a number of failures in a row, in milliseconds.
pub open spec fn backoff_delay(failures: int) -> u64 {
    if failures == 0 {
        100
    } else if failures == 1 {
        250
    } else if failures == 2 {
        500
    } else if failures == 3 {
        1000
    } else {
        2000
    }
}

/// The number of failures in a row, which decides how long to wait.
#[derive(Clone, Copy, Debug, PartialEq, Eq, Structural)]
pub struct RetryBackoff {
    pub failures: usize,
}

impl RetryBackoff {
    pub fn new() -> (backoff: RetryBackoff)
        ensures
            backoff.failures == 0,
    {
        RetryBackoff { failures: 0 }
    }

    /// Counts a failure and tells how long to wait, in milliseconds.
    pub fn next(&mut self) -> (delay: u64)
        ensures
            delay == backoff_delay(old(self).failures as int),
            final(self).failures == if old(self).failures == usize::MAX {
                usize::MAX as int
            } else {
                old(self).failures + 1
            },
    {
        let delay: u64 = if self.failures == 0 {
            100
        } else if self.failures == 1 {
            250
        } else if self.failures == 2 {
            500
        } else if self.failures == 3 {
            1000
        } else {
            2000
        };
        self.failures = self.failures.saturating_add(1);
        delay
    }

    pub fn reset(&mut self)
        ensures
            final(self).failures == 0,
    {
        self.failures = 0;
    }
}

/// The wait never gets shorter with more failures, and never longer than two seconds.
pub proof fn waits_grow_to_a_bound(failures: int, more: int)
    requires
        0 <= failures <= more,
    ensures
        100 <= backoff_delay(failures) <= backoff_delay(more) <= 2000,
{
}

/// Where a candidate stands.
#[derive(Clone, Copy, Debug, PartialEq, Eq, Structural)]
pub enum CandidateState {
    /// It is to be taken over.
    Ready,
    /// It was busy. It is tried again at a time.
    Waiting { until: u64 },
    /// It failed. It is tried again at a time.
    Blocked { until: u64 },
    /// It cannot be taken over.
    Unsupported,
    /// It is taken over. Its end may have been requested.
    Active { activation_id: ActivationId, removal_sent: bool },
    /// The policy does not allow it.
    Rejected,
}

/// A device in the inventory.
#[derive(Debug)]
pub struct Candidate {
    pub info: DeviceInfo,
    pub aliases: PathSet,
    pub state: CandidateState,
    pub backoff: RetryBackoff,
}

/// What a [`Candidate`] holds.
#[verifier::ext_equal]
pub struct CandidateView {
    pub info: DeviceFacts,
    pub aliases: Seq<Seq<u8>>,
    pub state: CandidateState,
    pub failures: usize,
}

impl View for Candidate {
    type V = CandidateView;

    open spec fn view(&self) -> CandidateView {
        CandidateView {
            info: self.info@,
            aliases: self.aliases@,
            state: self.state,
            failures: self.backoff.failures,
        }
    }
}

/// What the candidates of a table hold.
pub open spec fn candidate_views(candidates: Map<Entry, Candidate>) -> Map<Entry, CandidateView> {
    candidates.map_values(|candidate: Candidate| candidate@)
}

impl CandidateView {
    /// A candidate that was just found.
    pub open spec fn discovered(
        info: DeviceFacts,
        aliases: Seq<Seq<u8>>,
        eligible: bool,
    ) -> CandidateView {
        CandidateView {
            info,
            aliases,
            state: if eligible {
                CandidateState::Ready
            } else {
                CandidateState::Rejected
            },
            failures: 0,
        }
    }

    /// The candidate with the end of its takeover requested.
    pub open spec fn leaving(self) -> CandidateView {
        match self.state {
            CandidateState::Active { activation_id, .. } => CandidateView {
                state: CandidateState::Active { activation_id, removal_sent: true },
                ..self
            },
            _ => self,
        }
    }

    /// When the candidate is to be tried again.
    pub open spec fn retry_time(self) -> Option<u64> {
        match self.state {
            CandidateState::Waiting { until } => Some(until),
            CandidateState::Blocked { until } => Some(until),
            _ => None,
        }
    }

    /// The candidate after its takeover ended.
    pub open spec fn released(self, cause: ReleaseCause, now: u64) -> CandidateView {
        CandidateView {
            state: match cause {
                ReleaseCause::Disconnected => CandidateState::Ready,
                ReleaseCause::Failed => CandidateState::Blocked {
                    until: (now + BLOCKED_RETRY) as u64,
                },
            },
            failures: 0,
            ..self
        }
    }

    /// The candidate after one more failure that calls for a growing wait.
    pub open spec fn backed_off(self, now: u64) -> CandidateView {
        CandidateView {
            state: CandidateState::Waiting {
                until: (now + backoff_delay(self.failures as int)) as u64,
            },
            failures: if self.failures == usize::MAX {
                usize::MAX
            } else {
                (self.failures + 1) as usize
            },
            ..self
        }
    }

    /// The candidate after a failure that calls for a long wait.
    pub open spec fn barred(self, now: u64) -> CandidateView {
        CandidateView {
            state: CandidateState::Blocked { until: (now + BLOCKED_RETRY) as u64 },
            ..self
        }
    }
}

impl Candidate {
    pub fn new(info: DeviceInfo, aliases: PathSet, eligible: bool) -> (candidate: Candidate)
        ensures
            candidate@ == CandidateView::discovered(info@, aliases@, eligible),
    {
        let state = if eligible {
            CandidateState::Ready
        } else {
            CandidateState::Rejected
        };
        Candidate { info, aliases, state, backoff: RetryBackoff::new() }
    }

    /// When the candidate is to be tried again.
    pub fn retry_at(&self) -> (time: Option<u64>)
        ensures
            time == self@.retry_time(),
    {
        match self.state {
            CandidateState::Waiting { until } => Some(until),
            CandidateState::Blocked { until } => Some(until),
            _ => None,
        }
    }
}

/// Requests the end of a takeover, unless that was done before. The number of the takeover is then
/// to be reported.
pub fn request_removal(candidate: &mut Candidate) -> (removed: Option<ActivationId>)
    ensures
        final(candidate)@ == old(candidate)@.leaving(),
        removed == match old(candidate)@.state {
            CandidateState::Active { activation_id, removal_sent: false } => Some(activation_id),
            _ => None,
        },
{
    match candidate.state {
        CandidateState::Active { activation_id, removal_sent } => {
            candidate.state = CandidateState::Active { activation_id, removal_sent: true };
            if removal_sent {
                None
            } else {
                Some(activation_id)
            }
        },
        _ => None,
    }
}

/// What a table holds for a node.
pub open spec fn lookup<T>(table: Map<Entry, T>, entry: Entry) -> Option<T> {
    if table.contains_key(entry) {
        Some(table[entry])
    } else {
        None
    }
}

/// What a search makes of one node: a known candidate and what was found at its node.
pub open spec fn refreshed_one(
    known: Option<CandidateView>,
    found: Option<SnapshotView>,
) -> Option<CandidateView> {
    match (known, found) {
        (Some(known), Some(SnapshotView::Candidate { info, aliases, eligible })) => {
            let updated = CandidateView { info, aliases, ..known };
            Some(
                if eligible {
                    updated
                } else if known.state is Active {
                    updated.leaving()
                } else {
                    CandidateView { state: CandidateState::Rejected, ..updated }
                },
            )
        },
        (Some(known), Some(SnapshotView::Owned { aliases, .. })) => if known.state is Active {
            Some(CandidateView { aliases, ..known })
        } else {
            None
        },
        (Some(known), None) => if known.state is Active {
            Some(known.leaving())
        } else {
            None
        },
        (None, Some(SnapshotView::Candidate { info, aliases, eligible })) => Some(
            CandidateView::discovered(info, aliases, eligible),
        ),
        _ => None,
    }
}

/// Whether a search calls for the end of the takeover of a node.
pub open spec fn must_leave(known: CandidateView, found: Option<SnapshotView>) -> bool {
    known.state is Active && match found {
        Some(SnapshotView::Candidate { eligible, .. }) => !eligible,
        Some(SnapshotView::Owned { .. }) => false,
        None => true,
    }
}

/// Whether the end of a takeover is to be reported after a search.
pub open spec fn is_reported(
    known: Map<Entry, CandidateView>,
    found: Map<Entry, SnapshotView>,
    entry: Entry,
    id: ActivationId,
) -> bool {
    known.contains_key(entry) && must_leave(known[entry], lookup(found, entry)) && known[entry].state
        == (CandidateState::Active { activation_id: id, removal_sent: false })
}

/// Whether a table is what a search makes of another one.
pub open spec fn is_refreshed(
    known: Map<Entry, CandidateView>,
    found: Map<Entry, SnapshotView>,
    after: Map<Entry, CandidateView>,
) -> bool {
    forall|entry: Entry|
        #![trigger after.contains_key(entry)]
        #![trigger known.contains_key(entry)]
        #![trigger found.contains_key(entry)]
        lookup(after, entry) == refreshed_one(lookup(known, entry), lookup(found, entry))
}

/// Whether no two takeovers have one number, and all numbers were given out.
pub open spec fn ids_are_unique(candidates: Map<Entry, CandidateView>, next_id: ActivationId) -> bool {
    &&& forall|entry: Entry| #[trigger]
        candidates.contains_key(entry) ==> match candidates[entry].state {
            CandidateState::Active { activation_id, .. } => activation_id < next_id,
            _ => true,
        }
    &&& forall|left: Entry, right: Entry|
        #![trigger candidates[left], candidates[right]]
        candidates.contains_key(left) && candidates.contains_key(right) && left != right ==> match (
            candidates[left].state,
            candidates[right].state,
        ) {
            (
                CandidateState::Active { activation_id: one, .. },
                CandidateState::Active { activation_id: other, .. },
            ) => one != other,
            _ => true,
        }
}

/// Brings the inventory up to date with a search. Returns the numbers of the takeovers whose end
/// is to be reported, each once.
pub fn refresh_inventory(
    candidates: &mut EntryMap<Candidate>,
    snapshots: EntryMap<Snapshot>,
) -> (removed: Vec<ActivationId>)
    ensures
        is_refreshed(
            candidate_views(old(candidates)@),
            crate::scan::snapshot_views(snapshots@),
            candidate_views(final(candidates)@),
        ),
        forall|id: ActivationId| #[trigger]
            removed@.contains(id) <==> exists|entry: Entry|
                is_reported(
                    candidate_views(old(candidates)@),
                    crate::scan::snapshot_views(snapshots@),
                    entry,
                    id,
                ),
        (exists|next_id: ActivationId| #[trigger]
            ids_are_unique(candidate_views(old(candidates)@), next_id))
            ==> removed@.no_duplicates(),
{
    let ghost known = candidate_views(candidates@);
    let ghost found = crate::scan::snapshot_views(snapshots@);
    let ghost unique = exists|next_id: ActivationId| #[trigger] ids_are_unique(known, next_id);
    let mut snapshots = snapshots;
    let mut removed: Vec<ActivationId> = Vec::new();
    let existing = candidates.entries();
    let mut index: usize = 0;
    while index < existing.len()
        invariant
            index <= existing@.len(),
            existing@.no_duplicates(),
            known == candidate_views(old(candidates)@),
            forall|entry: Entry| #[trigger]
                existing@.contains(entry) <==> known.contains_key(entry),
            forall|entry: Entry|
                #![trigger candidates@.contains_key(entry)]
                #![trigger known.contains_key(entry)]
                lookup(candidate_views(candidates@), entry) == if existing@.take(
                    index as int,
                ).contains(entry) {
                    refreshed_one(lookup(known, entry), lookup(found, entry))
                } else {
                    lookup(known, entry)
                },
            forall|entry: Entry|
                #![trigger snapshots@.contains_key(entry)]
                #![trigger found.contains_key(entry)]
                lookup(crate::scan::snapshot_views(snapshots@), entry) == if existing@.take(
                    index as int,
                ).contains(entry) {
                    None
                } else {
                    lookup(found, entry)
                },
            forall|id: ActivationId| #[trigger]
                removed@.contains(id) <==> exists|at: int|
                    0 <= at < index && is_reported(known, found, #[trigger] existing@[at], id),
            unique == (exists|next_id: ActivationId| #[trigger] ids_are_unique(known, next_id)),
            unique ==> removed@.no_duplicates(),
        decreases existing@.len() - index,
    {
        let key = existing[index];
        let ghost shorter = existing@.take(index as int);
        let ghost longer = existing@.take(index + 1);
        let ghost candidates_before = candidates@;
        let ghost snapshots_before = snapshots@;
        let ghost removed_before = removed@;
        proof {
            assert(existing@.contains(key));
            assert(longer =~= shorter.push(key));
            assert(!shorter.contains(key)) by {
                if shorter.contains(key) {
                    let at = choose|at: int| 0 <= at < shorter.len() && shorter[at] == key;
                    assert(existing@[at] == existing@[index as int]);
                }
            }
            assert forall|entry: Entry| longer.contains(entry) <==> shorter.contains(entry) || entry
                == key by {
                if shorter.contains(entry) {
                    let at = choose|at: int| 0 <= at < shorter.len() && shorter[at] == entry;
                    assert(longer[at] == entry);
                }
                assert(longer[index as int] == key);
            }
            assert(known.contains_key(key));
            assert(lookup(candidate_views(candidates@), key) == lookup(known, key));
            assert(candidates@.contains_key(key));
            assert(candidates@[key]@ == known[key]);
            assert(snapshots@.contains_key(key) == found.contains_key(key));
            assert(lookup(crate::scan::snapshot_views(snapshots@), key) == lookup(found, key));
        }
        let snapshot = snapshots.remove(key);
        let candidate = candidates.remove(key);
        let mut reported: Option<ActivationId> = None;
        if let Some(candidate) = candidate {
            let mut candidate = candidate;
            let active = match candidate.state {
                CandidateState::Active { .. } => true,
                _ => false,
            };
            match snapshot {
                Some(Snapshot::Candidate { info, aliases, eligible }) => {
                    candidate.info = info;
                    candidate.aliases = aliases;
                    if !eligible && active {
                        reported = request_removal(&mut candidate);
                    } else if !eligible {
                        candidate.state = CandidateState::Rejected;
                    }
                    candidates.insert(key, candidate);
                },
                Some(Snapshot::Owned { aliases, .. }) => {
                    if active {
                        candidate.aliases = aliases;
                        candidates.insert(key, candidate);
                    }
                },
                None => {
                    if active {
                        reported = request_removal(&mut candidate);
                        candidates.insert(key, candidate);
                    }
                },
            }
        }
        proof {
            assert(forall|id: ActivationId|
                reported == Some(id) <==> is_reported(known, found, key, id));
        }
        if let Some(id) = reported {
            removed.push(id);
            proof {
                if unique && removed_before.contains(id) {
                    let at = choose|at: int|
                        0 <= at < index && is_reported(known, found, #[trigger] existing@[at], id);
                    let next_id = choose|next_id: ActivationId| #[trigger]
                        ids_are_unique(known, next_id);
                    assert(existing@[at] != key);
                    assert(known[existing@[at]].state == known[key].state);
                }
            }
        }
        proof {
            assert forall|id: ActivationId| #[trigger] removed@.contains(id) <==> exists|at: int|
                0 <= at < index + 1 && is_reported(known, found, #[trigger] existing@[at], id) by {
                if removed_before.contains(id) {
                    let at = choose|at: int|
                        0 <= at < index && is_reported(known, found, #[trigger] existing@[at], id);
                    assert(is_reported(known, found, existing@[at], id));
                    let to = choose|to: int|
                        0 <= to < removed_before.len() && removed_before[to] == id;
                    assert(removed@[to] == id);
                }
                if reported == Some(id) {
                    assert(removed@.last() == id);
                    assert(is_reported(known, found, existing@[index as int], id));
                }
                if removed@.contains(id) && reported != Some(id) {
                    let to = choose|to: int| 0 <= to < removed@.len() && removed@[to] == id;
                    assert(removed_before[to] == id);
                }
            }
            assert forall|entry: Entry|
                #![trigger candidates@.contains_key(entry)]
                #![trigger known.contains_key(entry)]
                lookup(candidate_views(candidates@), entry) == if longer.contains(entry) {
                    refreshed_one(lookup(known, entry), lookup(found, entry))
                } else {
                    lookup(known, entry)
                } by {
                assert(candidates_before.contains_key(entry) || !candidates_before.contains_key(
                    entry,
                ));
                if entry == key {
                    assert(lookup(candidate_views(candidates@), key) == refreshed_one(
                        lookup(known, key),
                        lookup(found, key),
                    ));
                } else {
                    assert(lookup(candidate_views(candidates@), entry) == lookup(
                        candidate_views(candidates_before),
                        entry,
                    ));
                }
            }
            assert forall|entry: Entry|
                #![trigger snapshots@.contains_key(entry)]
                #![trigger found.contains_key(entry)]
                lookup(crate::scan::snapshot_views(snapshots@), entry) == if longer.contains(
                    entry,
                ) {
                    None
                } else {
                    lookup(found, entry)
                } by {
                assert(snapshots_before.contains_key(entry) || !snapshots_before.contains_key(
                    entry,
                ));
                if entry != key {
                    assert(lookup(crate::scan::snapshot_views(snapshots@), entry) == lookup(
                        crate::scan::snapshot_views(snapshots_before),
                        entry,
                    ));
                }
            }
        }
        index = index + 1;
    }
    proof {
        assert(existing@.take(index as int) =~= existing@);
        assert forall|id: ActivationId| #[trigger] removed@.contains(id) <==> exists|entry: Entry|
            is_reported(known, found, entry, id) by {
            if exists|entry: Entry| is_reported(known, found, entry, id) {
                let entry = choose|entry: Entry| is_reported(known, found, entry, id);
                assert(existing@.contains(entry));
                let at = choose|at: int| 0 <= at < existing@.len() && existing@[at] == entry;
                assert(is_reported(known, found, existing@[at], id));
            }
        }
        assert forall|entry: Entry| #[trigger] known.contains_key(entry) implies lookup(
            candidate_views(candidates@),
            entry,
        ) == refreshed_one(lookup(known, entry), lookup(found, entry)) && !snapshots@.contains_key(
            entry,
        ) by {
            assert(existing@.contains(entry));
            assert(!snapshots@.contains_key(entry) || snapshots@.contains_key(entry));
        }
        assert forall|entry: Entry| !known.contains_key(entry) implies !(
        #[trigger] candidates@.contains_key(entry)) by {
            assert(!existing@.contains(entry));
        }
        assert forall|entry: Entry| !known.contains_key(entry) implies lookup(
            crate::scan::snapshot_views(snapshots@),
            entry,
        ) == #[trigger] lookup(found, entry) by {
            assert(!existing@.contains(entry));
            assert(found.contains_key(entry) || !found.contains_key(entry));
        }
    }
    let discovered = snapshots.entries();
    let ghost new = crate::scan::snapshot_views(snapshots@);
    let ghost kept = candidate_views(candidates@);
    let mut index: usize = 0;
    while index < discovered.len()
        invariant
            index <= discovered@.len(),
            discovered@.no_duplicates(),
            forall|entry: Entry| #[trigger]
                discovered@.contains(entry) <==> new.contains_key(entry),
            forall|entry: Entry| #[trigger]
                kept.contains_key(entry) ==> !new.contains_key(entry),
            forall|entry: Entry|
                #![trigger snapshots@.contains_key(entry)]
                #![trigger new.contains_key(entry)]
                lookup(crate::scan::snapshot_views(snapshots@), entry) == if discovered@.take(
                    index as int,
                ).contains(entry) {
                    None
                } else {
                    lookup(new, entry)
                },
            forall|entry: Entry|
                #![trigger candidates@.contains_key(entry)]
                #![trigger kept.contains_key(entry)]
                lookup(candidate_views(candidates@), entry) == if discovered@.take(
                    index as int,
                ).contains(entry) {
                    refreshed_one(None, lookup(new, entry))
                } else {
                    lookup(kept, entry)
                },
        decreases discovered@.len() - index,
    {
        let key = discovered[index];
        let ghost shorter = discovered@.take(index as int);
        let ghost longer = discovered@.take(index + 1);
        let ghost candidates_before = candidates@;
        let ghost snapshots_before = snapshots@;
        proof {
            assert(discovered@.contains(key));
            assert(longer =~= shorter.push(key));
            assert(!shorter.contains(key)) by {
                if shorter.contains(key) {
                    let at = choose|at: int| 0 <= at < shorter.len() && shorter[at] == key;
                    assert(discovered@[at] == discovered@[index as int]);
                }
            }
            assert forall|entry: Entry| longer.contains(entry) <==> shorter.contains(entry) || entry
                == key by {
                if shorter.contains(entry) {
                    let at = choose|at: int| 0 <= at < shorter.len() && shorter[at] == entry;
                    assert(longer[at] == entry);
                }
                assert(longer[index as int] == key);
            }
            assert(new.contains_key(key));
            assert(snapshots@.contains_key(key));
            assert(snapshots@[key]@ == new[key]);
            assert(!kept.contains_key(key));
            assert(!candidates@.contains_key(key));
        }
        if let Some(Snapshot::Candidate { info, aliases, eligible }) = snapshots.remove(key) {
            candidates.insert(key, Candidate::new(info, aliases, eligible));
        }
        proof {
            assert forall|entry: Entry|
                #![trigger candidates@.contains_key(entry)]
                #![trigger kept.contains_key(entry)]
                lookup(candidate_views(candidates@), entry) == if longer.contains(entry) {
                    refreshed_one(None, lookup(new, entry))
                } else {
                    lookup(kept, entry)
                } by {
                assert(candidates_before.contains_key(entry) || !candidates_before.contains_key(
                    entry,
                ));
                if entry != key {
                    assert(lookup(candidate_views(candidates@), entry) == lookup(
                        candidate_views(candidates_before),
                        entry,
                    ));
                }
            }
            assert forall|entry: Entry|
                #![trigger snapshots@.contains_key(entry)]
                #![trigger new.contains_key(entry)]
                lookup(crate::scan::snapshot_views(snapshots@), entry) == if longer.contains(
                    entry,
                ) {
                    None
                } else {
                    lookup(new, entry)
                } by {
                assert(snapshots_before.contains_key(entry) || !snapshots_before.contains_key(
                    entry,
                ));
                if entry != key {
                    assert(lookup(crate::scan::snapshot_views(snapshots@), entry) == lookup(
                        crate::scan::snapshot_views(snapshots_before),
                        entry,
                    ));
                }
            }
        }
        index = index + 1;
    }
    proof {
        assert(discovered@.take(index as int) =~= discovered@);
        let after = candidate_views(candidates@);
        assert forall|entry: Entry|
            #![trigger after.contains_key(entry)]
            #![trigger known.contains_key(entry)]
            #![trigger found.contains_key(entry)]
            lookup(after, entry) == refreshed_one(
                lookup(known, entry),
                lookup(found, entry),
            ) by {
            assert(kept.contains_key(entry) || !kept.contains_key(entry));
            assert(discovered@.contains(entry) <==> new.contains_key(entry));
            if known.contains_key(entry) {
                assert(!new.contains_key(entry));
            } else {
                assert(lookup(new, entry) == lookup(found, entry));
                assert(!kept.contains_key(entry));
            }
        }
    }
    removed
}

/// Whether a candidate is the one of a takeover.
pub open spec fn is_active_with(candidate: CandidateView, id: ActivationId) -> bool {
    candidate.state matches CandidateState::Active { activation_id, .. } && activation_id == id
}

/// The number of a candidate's takeover.
pub open spec fn active_id(candidate: CandidateView) -> Option<ActivationId> {
    match candidate.state {
        CandidateState::Active { activation_id, .. } => Some(activation_id),
        _ => None,
    }
}

/// Takes note of the end of a takeover. A number that no current takeover has is ignored.
pub fn handle_release(candidates: &mut EntryMap<Candidate>, release: Release, now: u64)
    requires
        now + BLOCKED_RETRY <= u64::MAX,
    ensures
        ({
            let before = candidate_views(old(candidates)@);
            let after = candidate_views(final(candidates)@);
            ||| after == before && forall|entry: Entry| #[trigger]
                before.contains_key(entry) ==> !is_active_with(
                    before[entry],
                    release.activation_id,
                )
            ||| exists|entry: Entry| #[trigger]
                before.contains_key(entry) && is_active_with(before[entry], release.activation_id)
                    && after == before.insert(entry, before[entry].released(release.cause, now))
        }),
{
    let ghost before = candidate_views(candidates@);
    let entries = candidates.entries();
    let mut index: usize = 0;
    while index < entries.len()
        invariant
            index <= entries@.len(),
            candidates@ == old(candidates)@,
            before == candidate_views(candidates@),
            now + BLOCKED_RETRY <= u64::MAX,
            forall|entry: Entry| #[trigger]
                entries@.contains(entry) <==> candidates@.contains_key(entry),
            forall|at: int|
                0 <= at < index ==> !is_active_with(
                    before[#[trigger] entries@[at]],
                    release.activation_id,
                ),
        decreases entries@.len() - index,
    {
        let entry = entries[index];
        assert(entries@.contains(entry));
        let matched = match candidates.get(entry) {
            Some(candidate) => match candidate.state {
                CandidateState::Active { activation_id, .. } => activation_id
                    == release.activation_id,
                _ => false,
            },
            None => false,
        };
        if matched {
            if let Some(candidate) = candidates.remove(entry) {
                let mut candidate = candidate;
                candidate.backoff.reset();
                candidate.state = match release.cause {
                    ReleaseCause::Disconnected => CandidateState::Ready,
                    ReleaseCause::Failed => CandidateState::Blocked {
                        until: now + BLOCKED_RETRY,
                    },
                };
                let ghost released = candidate@;
                candidates.insert(entry, candidate);
                proof {
                    assert(before.contains_key(entry));
                    assert(released == before[entry].released(release.cause, now));
                    assert(candidate_views(candidates@) =~= before.insert(entry, released));
                }
            }
            return;
        }
        index = index + 1;
    }
    proof {
        assert forall|entry: Entry| #[trigger] before.contains_key(entry) implies !is_active_with(
            before[entry],
            release.activation_id,
        ) by {
            assert(entries@.contains(entry));
            let at = choose|at: int| 0 <= at < entries@.len() && entries@[at] == entry;
            assert(!is_active_with(before[entries@[at]], release.activation_id));
        }
    }
}

/// A node with its path, for sorting.
struct Located {
    entry: Entry,
    path: Vec<u8>,
}

/// Whether no node comes after one whose path is later.
pub open spec fn paths_in_order(paths: Seq<Seq<u8>>) -> bool {
    forall|left: int, right: int|
        0 <= left < right < paths.len() ==> !crate::path::path_before(paths[right], paths[left])
}

/// The paths of some nodes.
spec fn located_paths(located: Seq<Located>) -> Seq<Seq<u8>> {
    located.map_values(|node: Located| node.path@)
}

/// The entries of some nodes.
spec fn located_entries(located: Seq<Located>) -> Seq<Entry> {
    located.map_values(|node: Located| node.entry)
}

/// Puts a node in its place, after all nodes whose path is not later.
fn insert_by_path(located: &mut Vec<Located>, node: Located)
    requires
        paths_in_order(located_paths(old(located)@)),
    ensures
        paths_in_order(located_paths(final(located)@)),
        exists|at: int|
            0 <= at <= old(located)@.len() && final(located)@ == #[trigger] old(located)@.insert(
                at,
                node,
            ),
{
    let ghost before = located_paths(located@);
    let mut to: usize = located.len();
    while to > 0 && precedes(node.path.as_slice(), located[to - 1].path.as_slice())
        invariant
            to <= located@.len(),
            located@ == old(located)@,
            before == located_paths(located@),
            forall|at: int|
                to <= at < before.len() ==> crate::path::path_before(
                    node.path@,
                    #[trigger] before[at],
                ),
        decreases to,
    {
        assert(before[to - 1] == located@[to - 1].path@);
        to = to - 1;
    }
    let ghost path = node.path@;
    located.insert(to, node);
    proof {
        let after = located_paths(located@);
        assert(located@ =~= old(located)@.insert(to as int, node));
        assert(after =~= before.insert(to as int, path));
        let new = crate::path::components_of(path);
        if to > 0 {
            assert(before[to - 1] == old(located)@[to - 1].path@);
        }
        assert forall|left: int, right: int|
            0 <= left < right < after.len() implies !crate::path::path_before(
            after[right],
            after[left],
        ) by {
            let old_left = if left > to {
                left - 1
            } else {
                left
            };
            let old_right = if right > to {
                right - 1
            } else {
                right
            };
            if left == to {
                let later = crate::path::components_of(before[old_right]);
                assert(crate::path::path_before(path, before[old_right]));
                crate::path::lemma_components_order(later, new, later);
            } else if right == to {
                let last = crate::path::components_of(before[to - 1]);
                let earlier = crate::path::components_of(before[left]);
                if left < to - 1 {
                    assert(!crate::path::path_before(before[to - 1], before[left]));
                }
                crate::path::lemma_components_order(new, earlier, last);
                crate::path::lemma_components_order(earlier, last, earlier);
            } else {
                assert(!crate::path::path_before(before[old_right], before[old_left]));
            }
        }
    }
}

/// The candidates that are to be taken over, in the order of their paths.
pub fn ready_candidates(candidates: &EntryMap<Candidate>) -> (ready: Vec<Entry>)
    ensures
        ready@.no_duplicates(),
        forall|entry: Entry| #[trigger]
            ready@.contains(entry) <==> candidates@.contains_key(entry) && candidates@[entry].state
                == CandidateState::Ready,
        paths_in_order(ready@.map_values(|entry: Entry| candidates@[entry].info@.path)),
{
    let entries = candidates.entries();
    let mut located: Vec<Located> = Vec::new();
    let mut index: usize = 0;
    while index < entries.len()
        invariant
            index <= entries@.len(),
            entries@.no_duplicates(),
            forall|entry: Entry| #[trigger]
                entries@.contains(entry) <==> candidates@.contains_key(entry),
            paths_in_order(located_paths(located@)),
            located_entries(located@).no_duplicates(),
            forall|entry: Entry| #[trigger]
                located_entries(located@).contains(entry) <==> entries@.take(index as int).contains(
                    entry,
                ) && candidates@[entry].state == CandidateState::Ready,
            forall|at: int|
                0 <= at < located@.len() ==> (#[trigger] located@[at]).path@
                    == candidates@[located@[at].entry].info@.path,
        decreases entries@.len() - index,
    {
        let entry = entries[index];
        let ghost before = located@;
        let ghost shorter = entries@.take(index as int);
        let ghost longer = entries@.take(index + 1);
        proof {
            assert(entries@.contains(entry));
            lemma_one_more(entries@, index as int);
        }
        if let Some(candidate) = candidates.get(entry) {
            if candidate.state == CandidateState::Ready {
                let path = crate::interceptor::copy_bytes(candidate.info.path());
                let node = Located { entry, path };
                insert_by_path(&mut located, node);
                proof {
                    let at = choose|at: int|
                        0 <= at <= before.len() && located@ == #[trigger] before.insert(at, node);
                    lemma_inserted(before, at, node);
                    assert(located_entries(located@) =~= located_entries(before).insert(at, entry));
                    lemma_entry_inserted(located_entries(before), at, entry);
                }
            }
        }
        index = index + 1;
    }
    let mut ready: Vec<Entry> = Vec::new();
    let mut to: usize = 0;
    while to < located.len()
        invariant
            to <= located@.len(),
            ready@ == located_entries(located@).take(to as int),
        decreases located@.len() - to,
    {
        ready.push(located[to].entry);
        to = to + 1;
        proof {
            assert(ready@ =~= located_entries(located@).take(to as int));
        }
    }
    proof {
        assert(ready@ =~= located_entries(located@));
        assert(entries@.take(index as int) =~= entries@);
        assert(ready@.map_values(|entry: Entry| candidates@[entry].info@.path) =~= located_paths(
            located@,
        ));
    }
    ready
}

/// What the first entries of a list hold.
pub(crate) proof fn lemma_one_more(entries: Seq<Entry>, index: int)
    requires
        0 <= index < entries.len(),
        entries.no_duplicates(),
    ensures
        !entries.take(index).contains(entries[index]),
        forall|entry: Entry| #[trigger]
            entries.take(index + 1).contains(entry) <==> entries.take(index).contains(entry)
                || entry == entries[index],
{
    let shorter = entries.take(index);
    let longer = entries.take(index + 1);
    if shorter.contains(entries[index]) {
        let at = choose|at: int| 0 <= at < shorter.len() && shorter[at] == entries[index];
        assert(entries[at] == entries[index]);
    }
    assert forall|entry: Entry| #[trigger] longer.contains(entry) <==> shorter.contains(entry)
        || entry == entries[index] by {
        if shorter.contains(entry) {
            let at = choose|at: int| 0 <= at < shorter.len() && shorter[at] == entry;
            assert(longer[at] == entry);
        }
        if longer.contains(entry) && entry != entries[index] {
            let at = choose|at: int| 0 <= at < longer.len() && longer[at] == entry;
            assert(shorter[at] == entry);
        }
        assert(longer[index] == entries[index]);
    }
}

proof fn lemma_inserted(before: Seq<Located>, at: int, node: Located)
    requires
        0 <= at <= before.len(),
    ensures
        forall|to: int|
            0 <= to < before.len() + 1 ==> (#[trigger] before.insert(at, node)[to]) == node || (
            exists|from: int| 0 <= from < before.len() && before[from] == before.insert(
                at,
                node,
            )[to]),
{
    assert forall|to: int| 0 <= to < before.len() + 1 implies (#[trigger] before.insert(at, node)[to])
        == node || (exists|from: int|
        0 <= from < before.len() && before[from] == before.insert(at, node)[to]) by {
        if to < at {
            assert(before[to] == before.insert(at, node)[to]);
        } else if to > at {
            assert(before[to - 1] == before.insert(at, node)[to]);
        }
    }
}

proof fn lemma_entry_inserted(before: Seq<Entry>, at: int, entry: Entry)
    requires
        0 <= at <= before.len(),
        before.no_duplicates(),
        !before.contains(entry),
    ensures
        before.insert(at, entry).no_duplicates(),
        forall|other: Entry| #[trigger]
            before.insert(at, entry).contains(other) <==> before.contains(other) || other == entry,
{
    let after = before.insert(at, entry);
    let source = |to: int|
        if to > at {
            to - 1
        } else {
            to
        };
    assert forall|left: int, right: int|
        0 <= left < after.len() && 0 <= right < after.len() && left != right implies after[left]
        != after[right] by {
        if left == at {
            assert(before.contains(before[source(right)]));
        } else if right == at {
            assert(before.contains(before[source(left)]));
        } else {
            assert(before[source(left)] != before[source(right)]);
        }
    }
    assert forall|other: Entry| #[trigger] after.contains(other) <==> before.contains(other) || other
        == entry by {
        if before.contains(other) {
            let from = choose|from: int| 0 <= from < before.len() && before[from] == other;
            if from < at {
                assert(after[from] == other);
            } else {
                assert(after[from + 1] == other);
            }
        }
        assert(after[at] == entry);
        if after.contains(other) && other != entry {
            let to = choose|to: int| 0 <= to < after.len() && after[to] == other;
            assert(before[source(to)] == other);
        }
    }
}

/// Schedules another try after a growing wait.
pub fn schedule_backoff(candidate: &mut Candidate, now: u64)
    requires
        now + BLOCKED_RETRY <= u64::MAX,
    ensures
        final(candidate)@ == old(candidate)@.backed_off(now),
{
    let delay = candidate.backoff.next();
    candidate.state = CandidateState::Waiting { until: now + delay };
}

/// What a failed attempt to take over a candidate makes of it: nothing is left of it where it is
/// gone. A fatal error concerns no single candidate.
pub open spec fn after_failed_claim(
    candidate: CandidateView,
    error: ClaimError,
    now: u64,
) -> Option<CandidateView> {
    match error {
        ClaimError::Gone(_) | ClaimError::Stale | ClaimError::Owned => None,
        ClaimError::NotApplicable => Some(
            CandidateView { state: CandidateState::Rejected, ..candidate },
        ),
        ClaimError::Unsupported(_) => Some(
            CandidateView { state: CandidateState::Unsupported, ..candidate },
        ),
        ClaimError::Busy | ClaimError::Interrupted(_) => Some(candidate.backed_off(now)),
        ClaimError::Permission(_) | ClaimError::Other(_) => Some(candidate.barred(now)),
        ClaimError::Output(err) => if err.has_code(ENOENT) || err.has_code(ENODEV) || err.has_code(
            EIO,
        ) {
            None
        } else if err.has_code(EINTR) {
            Some(candidate.backed_off(now))
        } else {
            Some(candidate.barred(now))
        },
        ClaimError::Fatal(_) => Some(candidate),
    }
}

/// The candidate that was taken over.
pub open spec fn after_claim(candidate: CandidateView, id: ActivationId) -> CandidateView {
    CandidateView {
        state: CandidateState::Active { activation_id: id, removal_sent: false },
        failures: 0,
        ..candidate
    }
}

/// A table with one candidate replaced, or removed.
pub open spec fn with_candidate(
    candidates: Map<Entry, CandidateView>,
    entry: Entry,
    candidate: Option<CandidateView>,
) -> Map<Entry, CandidateView> {
    match candidate {
        Some(candidate) => candidates.insert(entry, candidate),
        None => candidates.remove(entry),
    }
}

/// Records the result of an attempt to take over a candidate. Returns the number of the takeover,
/// where it succeeded. Fails on a fatal error, and when there are no more numbers.
pub fn record_claim(
    candidates: &mut EntryMap<Candidate>,
    entry: Entry,
    result: Result<(), ClaimError>,
    next_activation_id: &mut ActivationId,
    now: u64,
) -> (activation: Result<Option<ActivationId>, IoError>)
    requires
        old(candidates)@.contains_key(entry),
        now + BLOCKED_RETRY <= u64::MAX,
    ensures
        ({
            let before = candidate_views(old(candidates)@);
            let after = candidate_views(final(candidates)@);
            let id = *old(next_activation_id);
            match (result, activation) {
                (Ok(_), Ok(Some(given))) => {
                    &&& id < u64::MAX
                    &&& given == id
                    &&& *final(next_activation_id) == id + 1
                    &&& after == before.insert(entry, after_claim(before[entry], id))
                },
                (Ok(_), Err(err)) => id == u64::MAX && *final(next_activation_id) == id && after
                    == before && crate::claim::is_plain(
                    err,
                    ErrorKind::Other,
                    "Input activation ID exhausted"@,
                ),
                (Err(error), Ok(None)) => !(error is Fatal) && *final(next_activation_id) == id
                    && after == with_candidate(
                    before,
                    entry,
                    after_failed_claim(before[entry], error, now),
                ),
                (Err(error), Err(err)) => {
                    &&& error == ClaimError::Fatal(err)
                    &&& *final(next_activation_id) == id
                    &&& after == before
                },
                _ => false,
            }
        }),
{
    let ghost before = candidate_views(candidates@);
    let ghost source = candidates@;
    match result {
        Ok(_) => {
            let activation_id: ActivationId = *next_activation_id;
            match activation_id.checked_add(1) {
                Some(next) => {
                    *next_activation_id = next;
                },
                None => {
                    return Err(IoError::new(ErrorKind::Other, "Input activation ID exhausted"));
                },
            }
            if let Some(candidate) = candidates.remove(entry) {
                let mut candidate = candidate;
                candidate.backoff.reset();
                candidate.state = CandidateState::Active { activation_id, removal_sent: false };
                candidates.insert(entry, candidate);
                proof {
                    assert(candidate_views(candidates@) =~= before.insert(
                        entry,
                        after_claim(before[entry], activation_id),
                    ));
                }
            }
            Ok(Some(activation_id))
        },
        Err(ClaimError::Fatal(err)) => Err(err),
        Err(error) => {
            if let Some(candidate) = candidates.remove(entry) {
                proof {
                    assert(candidate_views(candidates@) =~= before.remove(entry));
                }
                if let Some(candidate) = settle_claim(candidate, &error, now) {
                    let ghost settled = candidate@;
                    candidates.insert(entry, candidate);
                    proof {
                        assert(candidate_views(candidates@) =~= before.insert(entry, settled));
                    }
                }
            }
            Ok(None)
        },
    }
}

/// What a failed attempt to take over a candidate makes of it.
fn settle_claim(candidate: Candidate, error: &ClaimError, now: u64) -> (settled: Option<Candidate>)
    requires
        now + BLOCKED_RETRY <= u64::MAX,
    ensures
        match settled {
            Some(settled) => after_failed_claim(candidate@, *error, now) == Some(settled@),
            None => after_failed_claim(candidate@, *error, now) is None,
        },
{
    let mut candidate = candidate;
    match error {
        ClaimError::Gone(_) | ClaimError::Stale | ClaimError::Owned => None,
        ClaimError::NotApplicable => {
            candidate.state = CandidateState::Rejected;
            Some(candidate)
        },
        ClaimError::Unsupported(_) => {
            candidate.state = CandidateState::Unsupported;
            Some(candidate)
        },
        ClaimError::Busy | ClaimError::Interrupted(_) => {
            schedule_backoff(&mut candidate, now);
            Some(candidate)
        },
        ClaimError::Permission(_) | ClaimError::Other(_) => {
            candidate.state = CandidateState::Blocked { until: now + BLOCKED_RETRY };
            Some(candidate)
        },
        ClaimError::Output(err) => {
            if err.os_code == Some(ENOENT) || err.os_code == Some(ENODEV) || err.os_code == Some(
                EIO,
            ) {
                None
            } else if err.os_code == Some(EINTR) {
                schedule_backoff(&mut candidate, now);
                Some(candidate)
            } else {
                candidate.state = CandidateState::Blocked { until: now + BLOCKED_RETRY };
                Some(candidate)
            }
        },
        ClaimError::Fatal(_) => Some(candidate),
    }
}

/// A round of attempts to take over all candidates that are ready.
pub struct Reconcile {
    keys: Vec<Entry>,
    index: usize,
    retried: bool,
}

/// The state of a [`Reconcile`].
#[verifier::ext_equal]
pub struct ReconcileView {
    /// The candidates that are left, the next one first.
    pub left: Seq<Entry>,
    /// Whether the next one was interrupted once.
    pub retried: bool,
}

impl View for Reconcile {
    type V = ReconcileView;

    closed spec fn view(&self) -> ReconcileView {
        ReconcileView { left: self.keys@.skip(self.index as int), retried: self.retried }
    }
}

impl Reconcile {
    pub closed spec fn wf(&self) -> bool {
        self.index <= self.keys@.len()
    }

    /// A round over the candidates that are now ready, in the order of their paths.
    pub fn new(candidates: &EntryMap<Candidate>) -> (round: Reconcile)
        ensures
            round.wf(),
            !round@.retried,
            round@.left.no_duplicates(),
            forall|entry: Entry| #[trigger]
                round@.left.contains(entry) <==> candidates@.contains_key(entry)
                    && candidates@[entry].state == CandidateState::Ready,
            paths_in_order(round@.left.map_values(|entry: Entry| candidates@[entry].info@.path)),
    {
        let keys = ready_candidates(candidates);
        let round = Reconcile { keys, index: 0, retried: false };
        proof {
            assert(round@.left =~= keys@);
        }
        round
    }

    /// The candidate that is to be taken over next.
    pub fn next(&self) -> (entry: Option<Entry>)
        requires
            self.wf(),
        ensures
            entry == if self@.left.len() > 0 {
                Some(self@.left[0])
            } else {
                None
            },
    {
        if self.index < self.keys.len() {
            Some(self.keys[self.index])
        } else {
            None
        }
    }

    /// Passes over the next candidate: its group does not let it be taken over now.
    pub fn skip(&mut self)
        requires
            old(self).wf(),
            old(self)@.left.len() > 0,
        ensures
            final(self).wf(),
            final(self)@ == (ReconcileView { left: old(self)@.left.drop_first(), retried: false }),
    {
        proof {
            assert(self.keys@.skip(self.index as int).drop_first() =~= self.keys@.skip(
                self.index + 1,
            ));
            assert(self.index < self.keys.len());
        }
        self.index = self.index + 1;
        self.retried = false;
    }

    /// Takes the result of an attempt. One that was interrupted is made once more. Any other is
    /// recorded, and the round goes on.
    pub fn advance(
        &mut self,
        candidates: &mut EntryMap<Candidate>,
        result: Result<(), ClaimError>,
        next_activation_id: &mut ActivationId,
        now: u64,
    ) -> (activation: Result<Option<ActivationId>, IoError>)
        requires
            old(self).wf(),
            old(self)@.left.len() > 0,
            old(candidates)@.contains_key(old(self)@.left[0]),
            now + BLOCKED_RETRY <= u64::MAX,
        ensures
            final(self).wf(),
            ({
                let before = candidate_views(old(candidates)@);
                let after = candidate_views(final(candidates)@);
                let entry = old(self)@.left[0];
                let id = *old(next_activation_id);
                let again = !old(self)@.retried && result matches Err(ClaimError::Interrupted(_));
                &&& final(self)@ == if again {
                    ReconcileView { retried: true, ..old(self)@ }
                } else {
                    ReconcileView { left: old(self)@.left.drop_first(), retried: false }
                }
                &&& if again {
                    after == before && activation == Ok::<Option<ActivationId>, IoError>(None)
                        && *final(next_activation_id) == id
                } else {
                    match (result, activation) {
                        (Ok(_), Ok(Some(given))) => id < u64::MAX && given == id && *final(next_activation_id)
                            == id + 1 && after == before.insert(
                            entry,
                            after_claim(before[entry], id),
                        ),
                        (Ok(_), Err(err)) => id == u64::MAX && *final(next_activation_id) == id
                            && after == before && crate::claim::is_plain(
                            err,
                            ErrorKind::Other,
                            "Input activation ID exhausted"@,
                        ),
                        (Err(error), Ok(None)) => !(error is Fatal) && *final(next_activation_id)
                            == id && after == with_candidate(
                            before,
                            entry,
                            after_failed_claim(before[entry], error, now),
                        ),
                        (Err(error), Err(err)) => error == ClaimError::Fatal(err)
                            && *final(next_activation_id) == id && after == before,
                        _ => false,
                    }
                }
            }),
    {
        if !self.retried {
            if let Err(ClaimError::Interrupted(_)) = &result {
                self.retried = true;
                return Ok(None);
            }
        }
        let entry = self.keys[self.index];
        proof {
            assert(entry == self@.left[0]);
            assert(self.index < self.keys.len());
            assert(self.keys@.skip(self.index as int).drop_first() =~= self.keys@.skip(
                self.index + 1,
            ));
        }
        self.index = self.index + 1;
        self.retried = false;
        record_claim(candidates, entry, result, next_activation_id, now)
    }
}

/// The candidate after its waiting time, where it is over.
pub open spec fn after_wait(candidate: CandidateView, now: u64) -> CandidateView {
    match candidate.retry_time() {
        Some(until) if until <= now => CandidateView { state: CandidateState::Ready, ..candidate },
        _ => candidate,
    }
}

/// Makes every candidate ready whose waiting time is over.
pub fn expire(candidates: &mut EntryMap<Candidate>, now: u64)
    ensures
        candidate_views(final(candidates)@) == candidate_views(old(candidates)@).map_values(
            |candidate: CandidateView| after_wait(candidate, now),
        ),
{
    let ghost before = candidate_views(candidates@);
    let entries = candidates.entries();
    let mut index: usize = 0;
    while index < entries.len()
        invariant
            index <= entries@.len(),
            entries@.no_duplicates(),
            forall|entry: Entry| #[trigger]
                entries@.contains(entry) <==> before.contains_key(entry),
            forall|entry: Entry| #[trigger]
                candidates@.contains_key(entry) <==> before.contains_key(entry),
            forall|entry: Entry| #[trigger]
                candidates@.contains_key(entry) ==> candidates@[entry]@ == if entries@.take(
                    index as int,
                ).contains(entry) {
                    after_wait(before[entry], now)
                } else {
                    before[entry]
                },
        decreases entries@.len() - index,
    {
        let entry = entries[index];
        proof {
            assert(entries@.contains(entry));
            lemma_one_more(entries@, index as int);
            assert(candidates@.contains_key(entry));
        }
        if let Some(candidate) = candidates.remove(entry) {
            let mut candidate = candidate;
            let expired = match candidate.retry_at() {
                Some(until) => until <= now,
                None => false,
            };
            if expired {
                candidate.state = CandidateState::Ready;
            }
            candidates.insert(entry, candidate);
        }
        index = index + 1;
    }
    proof {
        assert(entries@.take(index as int) =~= entries@);
        assert(candidate_views(candidates@) =~= before.map_values(
            |candidate: CandidateView| after_wait(candidate, now),
        ));
    }
}

/// The first time at which a candidate is to be tried again.
pub fn next_deadline(candidates: &EntryMap<Candidate>) -> (deadline: Option<u64>)
    ensures
        match deadline {
            Some(deadline) => (exists|entry: Entry| #[trigger]
                candidates@.contains_key(entry) && candidates@[entry]@.retry_time() == Some(
                    deadline,
                )) && forall|entry: Entry| #[trigger]
                candidates@.contains_key(entry) ==> match candidates@[entry]@.retry_time() {
                    Some(until) => deadline <= until,
                    None => true,
                },
            None => forall|entry: Entry| #[trigger]
                candidates@.contains_key(entry) ==> candidates@[entry]@.retry_time() is None,
        },
{
    let entries = candidates.entries();
    let mut deadline: Option<u64> = None;
    let mut index: usize = 0;
    while index < entries.len()
        invariant
            index <= entries@.len(),
            forall|entry: Entry| #[trigger]
                entries@.contains(entry) <==> candidates@.contains_key(entry),
            match deadline {
                Some(deadline) => (exists|entry: Entry| #[trigger]
                    candidates@.contains_key(entry) && candidates@[entry]@.retry_time() == Some(
                        deadline,
                    )) && forall|at: int|
                    0 <= at < index ==> match candidates@[#[trigger] entries@[at]]@.retry_time() {
                        Some(until) => deadline <= until,
                        None => true,
                    },
                None => forall|at: int|
                    0 <= at < index ==> candidates@[#[trigger] entries@[at]]@.retry_time() is None,
            },
        decreases entries@.len() - index,
    {
        let entry = entries[index];
        assert(entries@.contains(entry));
        if let Some(candidate) = candidates.get(entry) {
            if let Some(until) = candidate.retry_at() {
                let sooner = match deadline {
                    Some(deadline) => until < deadline,
                    None => true,
                };
                if sooner {
                    deadline = Some(until);
                }
            }
        }
        index = index + 1;
    }
    proof {
        assert forall|entry: Entry| #[trigger] candidates@.contains_key(entry) implies exists|
            at: int,
        | 0 <= at < entries@.len() && #[trigger] entries@[at] == entry by {
            assert(entries@.contains(entry));
        }
    }
    deadline
}

/// The directories of other names that are being watched.
#[derive(Clone, Copy, Debug, PartialEq, Eq, Structural)]
pub struct Watches {
    pub by_id: bool,
    pub by_path: bool,
}

impl Watches {
    /// Whether a directory is being watched.
    pub open spec fn watches(self, directory: AliasDirectory) -> bool {
        match directory {
            AliasDirectory::ById => self.by_id,
            AliasDirectory::ByPath => self.by_path,
        }
    }

    pub fn new() -> (watches: Watches)
        ensures
            forall|directory: AliasDirectory| !watches.watches(directory),
    {
        Watches { by_id: false, by_path: false }
    }

    pub fn is_watched(&self, directory: AliasDirectory) -> (watched: bool)
        ensures
            watched == self.watches(directory),
    {
        match directory {
            AliasDirectory::ById => self.by_id,
            AliasDirectory::ByPath => self.by_path,
        }
    }

    /// Takes the result of looking for a directory, and tells whether it is to be watched from now
    /// on. One that is not there is passed over.
    pub fn add_if_present(
        &mut self,
        directory: AliasDirectory,
        found: Result<(), IoError>,
    ) -> (add: Result<bool, IoError>)
        ensures
            match add {
                Ok(true) => !old(self).watches(directory) && found is Ok,
                Ok(false) => old(self).watches(directory) || (found matches Err(err)
                    && err.disappeared()),
                Err(err) => !old(self).watches(directory) && found == Err::<(), IoError>(err)
                    && !err.disappeared(),
            },
            final(self).watches(directory) == (old(self).watches(directory) || found is Ok),
            forall|other: AliasDirectory|
                other != directory ==> final(self).watches(other) == old(self).watches(other),
    {
        if self.is_watched(directory) {
            return Ok(false);
        }
        match found {
            Ok(_) => {
                match directory {
                    AliasDirectory::ById => {
                        self.by_id = true;
                    },
                    AliasDirectory::ByPath => {
                        self.by_path = true;
                    },
                }
                Ok(true)
            },
            Err(err) => {
                if is_disappearance(&err) {
                    Ok(false)
                } else {
                    Err(err)
                }
            },
        }
    }

    /// Takes note that something in the directory of the nodes was deleted or moved away.
    pub fn forget(&mut self, name: &[u8])
        ensures
            final(self).by_id == (old(self).by_id && name@ != by_id_name()),
            final(self).by_path == (old(self).by_path && name@ != by_path_name()),
    {
        let by_id: Vec<u8> = vec![98, 121, 45, 105, 100];
        let by_path: Vec<u8> = vec![98, 121, 45, 112, 97, 116, 104];
        assert(by_id@ =~= by_id_name());
        assert(by_path@ =~= by_path_name());
        if same_bytes(name, by_id.as_slice()) {
            self.by_id = false;
            assert(by_id_name().len() != by_path_name().len());
        } else if same_bytes(name, by_path.as_slice()) {
            self.by_path = false;
        }
    }
}

/// The bytes of the name `by-id`.
pub open spec fn by_id_name() -> Seq<u8> {
    seq![98u8, 121, 45, 105, 100]
}

/// The bytes of the name `by-path`.
pub open spec fn by_path_name() -> Seq<u8> {
    seq![98u8, 121, 45, 112, 97, 116, 104]
}

/// Whether some devices are the candidates of a search, one for each node in a list.
pub open spec fn lists(
    devices: Seq<CandidateDevice>,
    order: Seq<Entry>,
    found: Map<Entry, SnapshotView>,
) -> bool {
    &&& order.no_duplicates()
    &&& forall|entry: Entry| #[trigger]
        order.contains(entry) <==> found.contains_key(entry) && found[entry] is Candidate
    &&& devices.len() == order.len()
    &&& forall|at: int|
        0 <= at < devices.len() ==> match found[order[at]] {
            SnapshotView::Candidate { info, aliases, .. } => (#[trigger] devices[at]).facts() == (
                info,
                aliases,
            ),
            SnapshotView::Owned { .. } => false,
        }
}

/// The devices that a search found, in the order of their paths. Nodes that are already owned are
/// left out.
pub fn list_devices(snapshots: EntryMap<Snapshot>) -> (devices: Vec<CandidateDevice>)
    ensures
        exists|order: Seq<Entry>| #[trigger]
            lists(devices@, order, crate::scan::snapshot_views(snapshots@)),
        paths_in_order(devices@.map_values(|device: CandidateDevice| device.facts().0.path)),
{
    let ghost found = crate::scan::snapshot_views(snapshots@);
    let entries = snapshots.entries();
    let mut located: Vec<Located> = Vec::new();
    let mut index: usize = 0;
    while index < entries.len()
        invariant
            index <= entries@.len(),
            entries@.no_duplicates(),
            found == crate::scan::snapshot_views(snapshots@),
            forall|entry: Entry| #[trigger]
                entries@.contains(entry) <==> found.contains_key(entry),
            paths_in_order(located_paths(located@)),
            located_entries(located@).no_duplicates(),
            forall|entry: Entry| #[trigger]
                located_entries(located@).contains(entry) <==> entries@.take(index as int).contains(
                    entry,
                ) && found[entry] is Candidate,
            forall|at: int|
                0 <= at < located@.len() ==> found[located@[at].entry] is Candidate && (
                #[trigger] located@[at]).path@ == found[located@[at].entry].path(),
        decreases entries@.len() - index,
    {
        let entry = entries[index];
        let ghost before = located@;
        proof {
            assert(entries@.contains(entry));
            lemma_one_more(entries@, index as int);
        }
        if let Some(snapshot) = snapshots.get(entry) {
            if let Snapshot::Candidate { info, .. } = snapshot {
                let path = crate::interceptor::copy_bytes(info.path());
                let node = Located { entry, path };
                insert_by_path(&mut located, node);
                proof {
                    let at = choose|at: int|
                        0 <= at <= before.len() && located@ == #[trigger] before.insert(at, node);
                    lemma_inserted(before, at, node);
                    assert(located_entries(located@) =~= located_entries(before).insert(at, entry));
                    lemma_entry_inserted(located_entries(before), at, entry);
                }
            }
        }
        index = index + 1;
    }
    let ghost order = located_entries(located@);
    proof {
        assert(entries@.take(index as int) =~= entries@);
        assert forall|at: int| 0 <= at < order.len() implies found.contains_key(
            #[trigger] order[at],
        ) && found[order[at]] is Candidate by {
            assert(order.contains(order[at]));
        }
    }
    let mut snapshots = snapshots;
    let mut devices: Vec<CandidateDevice> = Vec::new();
    let mut to: usize = 0;
    while to < located.len()
        invariant
            to <= located@.len(),
            order == located_entries(located@),
            order.no_duplicates(),
            forall|at: int|
                0 <= at < order.len() ==> found.contains_key(#[trigger] order[at])
                    && found[order[at]] is Candidate,
            forall|at: int|
                to <= at < order.len() ==> snapshots@.contains_key(#[trigger] order[at])
                    && snapshots@[order[at]]@ == found[order[at]],
            devices@.len() == to,
            forall|at: int|
                0 <= at < to ==> match found[order[at]] {
                    SnapshotView::Candidate { info, aliases, .. } => (
                    #[trigger] devices@[at]).facts() == (info, aliases),
                    SnapshotView::Owned { .. } => false,
                },
        decreases located@.len() - to,
    {
        let entry = located[to].entry;
        assert(entry == order[to as int]);
        let ghost snapshots_before = snapshots@;
        match snapshots.remove(entry) {
            Some(Snapshot::Candidate { info, aliases, .. }) => {
                devices.push(CandidateDevice { info, aliases });
            },
            _ => {
                assert(false);
            },
        }
        proof {
            assert forall|at: int| to + 1 <= at < order.len() implies snapshots@.contains_key(
                #[trigger] order[at],
            ) && snapshots@[order[at]]@ == found[order[at]] by {
                assert(order[at] != order[to as int]);
            }
        }
        to = to + 1;
    }
    proof {
        assert forall|entry: Entry| #[trigger] order.contains(entry) <==> found.contains_key(entry)
            && found[entry] is Candidate by {
            assert(entries@.contains(entry) <==> found.contains_key(entry));
        }
        assert(lists(devices@, order, found));
        assert(devices@.map_values(|device: CandidateDevice| device.facts().0.path)
            =~= located_paths(located@)) by {
            assert forall|at: int| 0 <= at < devices@.len() implies devices@[at].facts().0.path
                == located_paths(located@)[at] by {
                assert(located@[at].entry == order[at]);
            }
        }
    }
    devices
}

/// A search keeps the numbers of takeovers unique.
pub proof fn refreshing_keeps_ids_unique(
    known: Map<Entry, CandidateView>,
    found: Map<Entry, SnapshotView>,
    after: Map<Entry, CandidateView>,
    next_id: ActivationId,
)
    requires
        ids_are_unique(known, next_id),
        is_refreshed(known, found, after),
    ensures
        ids_are_unique(after, next_id),
{
    assert forall|entry: Entry| #[trigger] after.contains_key(entry) && active_id(
        after[entry],
    ) is Some implies known.contains_key(entry) && active_id(known[entry]) == active_id(
        after[entry],
    ) by {
        assert(lookup(after, entry) == refreshed_one(lookup(known, entry), lookup(found, entry)));
    }
    assert forall|left: Entry, right: Entry|
        #![trigger after[left], after[right]]
        after.contains_key(left) && after.contains_key(right) && left != right implies match (
        after[left].state,
        after[right].state,
    ) {
        (
            CandidateState::Active { activation_id: one, .. },
            CandidateState::Active { activation_id: other, .. },
        ) => one != other,
        _ => true,
    } by {
        if active_id(after[left]) is Some && active_id(after[right]) is Some {
            assert(active_id(known[left]) == active_id(after[left]));
            assert(active_id(known[right]) == active_id(after[right]));
        }
    }
}

/// A takeover gets a number that no other has or ever had, as the numbers only grow.
pub proof fn claiming_keeps_ids_unique(
    candidates: Map<Entry, CandidateView>,
    entry: Entry,
    id: ActivationId,
)
    requires
        ids_are_unique(candidates, id),
        id < u64::MAX,
        candidates.contains_key(entry),
    ensures
        ids_are_unique(
            candidates.insert(entry, after_claim(candidates[entry], id)),
            (id + 1) as u64,
        ),
        forall|other: Entry| #[trigger]
            candidates.contains_key(other) ==> !is_active_with(candidates[other], id),
{
    let after = candidates.insert(entry, after_claim(candidates[entry], id));
    assert forall|other: Entry| #[trigger] candidates.contains_key(other) implies !is_active_with(
        candidates[other],
        id,
    ) by {}
    assert forall|left: Entry, right: Entry|
        #![trigger after[left], after[right]]
        after.contains_key(left) && after.contains_key(right) && left != right implies match (
        after[left].state,
        after[right].state,
    ) {
        (
            CandidateState::Active { activation_id: one, .. },
            CandidateState::Active { activation_id: other, .. },
        ) => one != other,
        _ => true,
    } by {
        assert(left == entry || candidates.contains_key(left));
        assert(right == entry || candidates.contains_key(right));
        if left != entry && right != entry {
            assert(after[left] == candidates[left]);
            assert(after[right] == candidates[right]);
        }
    }
}

/// A failed attempt and the end of a takeover make no candidate active, so the numbers of takeovers
/// stay unique.
pub proof fn other_changes_keep_ids_unique(
    candidates: Map<Entry, CandidateView>,
    entry: Entry,
    changed: Option<CandidateView>,
    next_id: ActivationId,
)
    requires
        ids_are_unique(candidates, next_id),
        changed matches Some(changed) ==> !(changed.state is Active),
    ensures
        ids_are_unique(with_candidate(candidates, entry, changed), next_id),
{
    let after = with_candidate(candidates, entry, changed);
    assert forall|left: Entry, right: Entry|
        #![trigger after[left], after[right]]
        after.contains_key(left) && after.contains_key(right) && left != right implies match (
        after[left].state,
        after[right].state,
    ) {
        (
            CandidateState::Active { activation_id: one, .. },
            CandidateState::Active { activation_id: other, .. },
        ) => one != other,
        _ => true,
    } by {
        if left != entry && right != entry {
            assert(after[left] == candidates[left]);
            assert(after[right] == candidates[right]);
        }
    }
    assert forall|other: Entry| #[trigger] after.contains_key(other) implies match after[other].state {
        CandidateState::Active { activation_id, .. } => activation_id < next_id,
        _ => true,
    } by {
        if other != entry {
            assert(candidates.contains_key(other));
        }
    }
}

/// The passing of time makes no candidate active, so the numbers of takeovers stay unique.
pub proof fn waits_keep_ids_unique(
    candidates: Map<Entry, CandidateView>,
    next_id: ActivationId,
    now: u64,
)
    requires
        ids_are_unique(candidates, next_id),
    ensures
        ids_are_unique(
            candidates.map_values(|candidate: CandidateView| after_wait(candidate, now)),
            next_id,
        ),
{
    let waited = candidates.map_values(|candidate: CandidateView| after_wait(candidate, now));
    assert forall|left: Entry, right: Entry|
        #![trigger waited[left], waited[right]]
        waited.contains_key(left) && waited.contains_key(right) && left != right implies match (
        waited[left].state,
        waited[right].state,
    ) {
        (
            CandidateState::Active { activation_id: one, .. },
            CandidateState::Active { activation_id: other, .. },
        ) => one != other,
        _ => true,
    } by {
        assert(candidates.contains_key(left) && candidates.contains_key(right));
        assert(waited[left] == after_wait(candidates[left], now));
        assert(waited[right] == after_wait(candidates[right], now));
    }
    assert forall|other: Entry| #[trigger] waited.contains_key(other) implies match waited[other].state {
        CandidateState::Active { activation_id, .. } => activation_id < next_id,
        _ => true,
    } by {
        assert(candidates.contains_key(other));
        assert(waited[other] == after_wait(candidates[other], now));
    }
}

/// The end of a takeover is requested at most once: after a search that reports it, no further one
/// does.
pub proof fn removal_is_reported_once(
    known: Map<Entry, CandidateView>,
    found: Map<Entry, SnapshotView>,
    after: Map<Entry, CandidateView>,
    later: Map<Entry, SnapshotView>,
    entry: Entry,
    id: ActivationId,
)
    requires
        is_refreshed(known, found, after),
        is_reported(known, found, entry, id),
    ensures
        after.contains_key(entry),
        is_active_with(after[entry], id),
        !is_reported(after, later, entry, id),
{
    assert(lookup(after, entry) == refreshed_one(lookup(known, entry), lookup(found, entry)));
}

/// A takeover lasts until its end is taken note of: no search drops it from the inventory.
pub proof fn takeovers_outlast_searches(
    known: Map<Entry, CandidateView>,
    found: Map<Entry, SnapshotView>,
    after: Map<Entry, CandidateView>,
    entry: Entry,
    id: ActivationId,
)
    requires
        is_refreshed(known, found, after),
        known.contains_key(entry),
        is_active_with(known[entry], id),
    ensures
        after.contains_key(entry),
        is_active_with(after[entry], id),
{
    assert(lookup(after, entry) == refreshed_one(lookup(known, entry), lookup(found, entry)));
}

} // verus!
