//! The inventory of a policy: which devices are taken over, in turn, within their groups.
//!
//! Points in time are milliseconds since some start.

use vstd::prelude::*;

use crate::claim::ClaimError;
use crate::config::DeviceGroup;
use crate::entry::{Entry, EntryMap};
use crate::groups::{may_claim, next_due, Member};
use crate::io_error::{ErrorKind, IoError};
use crate::monitor::{
    expire, handle_release, next_deadline, refresh_inventory, ActivationId, Candidate,
    CandidateState, CandidateView, Reconcile, ReconcileView, Release, Watches, BLOCKED_RETRY,
};
use crate::policy::{place_of, Place};
use crate::scan::{Snapshot, SnapshotView};

verus! {

/// The devices of this machine, with what is known of them.
pub struct Inventory {
    candidates: EntryMap<Candidate>,
    places: EntryMap<Place>,
    seen: EntryMap<u64>,
    grouped: bool,
    next_id: ActivationId,
}

/// What an [`Inventory`] holds.
#[verifier::ext_equal]
pub struct InventoryView {
    pub candidates: Map<Entry, CandidateView>,
    /// The places of the devices that are in groups.
    pub places: Map<Entry, Place>,
    /// When each candidate appeared.
    pub seen: Map<Entry, u64>,
    /// Whether only devices of groups are taken over.
    pub grouped: bool,
    /// The number of the next takeover.
    pub next_id: ActivationId,
}

impl View for Inventory {
    type V = InventoryView;

    closed spec fn view(&self) -> InventoryView {
        InventoryView {
            candidates: crate::monitor::candidate_views(self.candidates@),
            places: self.places@,
            seen: self.seen@,
            grouped: self.grouped,
            next_id: self.next_id,
        }
    }
}

impl InventoryView {
    /// The devices that are in groups.
    pub open spec fn members(self) -> Map<Entry, Member> {
        crate::groups::members_of(self.candidates, self.places, self.seen)
    }

    /// Whether at most one device of each group is taken over, no two takeovers have one number,
    /// and the tables speak of the same devices.
    pub open spec fn wf(self) -> bool {
        &&& crate::groups::one_active_each(self.members())
        &&& crate::monitor::ids_are_unique(self.candidates, self.next_id)
        &&& self.seen.dom() == self.candidates.dom()
        &&& self.places.dom() <= self.candidates.dom()
        &&& !self.grouped ==> self.places == Map::<Entry, Place>::empty()
    }

    /// Whether a candidate may be taken over.
    pub open spec fn admits(self, entry: Entry, now: u64) -> bool {
        &&& self.candidates.contains_key(entry)
        &&& self.candidates[entry].state is Ready
        &&& self.grouped ==> crate::groups::may_be_claimed(self.members(), entry, now)
    }

    /// The inventory after a candidate was taken over.
    pub open spec fn taken_over(self, entry: Entry) -> InventoryView {
        InventoryView {
            candidates: self.candidates.insert(
                entry,
                crate::monitor::after_claim(self.candidates[entry], self.next_id),
            ),
            next_id: (self.next_id + 1) as u64,
            ..self
        }
    }

    /// The inventory after an attempt to take over a candidate failed.
    pub open spec fn failed(self, entry: Entry, error: ClaimError, now: u64) -> InventoryView {
        match crate::monitor::after_failed_claim(self.candidates[entry], error, now) {
            Some(candidate) => InventoryView {
                candidates: self.candidates.insert(entry, candidate),
                ..self
            },
            None => InventoryView {
                candidates: self.candidates.remove(entry),
                places: self.places.remove(entry),
                seen: self.seen.remove(entry),
                ..self
            },
        }
    }

    /// When something can change for a candidate by itself: its wait is over, or its delay.
    pub open spec fn wakes(self, entry: Entry, now: u64) -> Option<int> {
        if !self.candidates.contains_key(entry) {
            None
        } else {
            match self.candidates[entry].retry_time() {
                Some(time) => Some(time as int),
                None => crate::groups::awaited(self.members(), entry, now),
            }
        }
    }
}

/// Whether the times at which candidates appeared are kept, and now is the time of the new ones.
pub open spec fn seen_in_time(
    seen: Map<Entry, u64>,
    candidates: Map<Entry, CandidateView>,
    now: u64,
    later: Map<Entry, u64>,
) -> bool {
    forall|entry: Entry|
        #![trigger later.contains_key(entry)]
        crate::monitor::lookup(later, entry) == if !candidates.contains_key(entry) {
            None
        } else if seen.contains_key(entry) {
            Some(seen[entry])
        } else {
            Some(now)
        }
}

/// Whether each candidate got its place. Those that are taken over keep theirs.
pub open spec fn placed_anew(
    places: Map<Entry, Place>,
    candidates: Map<Entry, CandidateView>,
    groups: Seq<DeviceGroup>,
    resolved: Seq<Seq<Option<Seq<u8>>>>,
    later: Map<Entry, Place>,
) -> bool {
    forall|entry: Entry|
        #![trigger later.contains_key(entry)]
        #![trigger candidates.contains_key(entry)]
        if !candidates.contains_key(entry) {
            !later.contains_key(entry)
        } else if candidates[entry].state is Active {
            crate::monitor::lookup(later, entry) == crate::monitor::lookup(places, entry)
        } else {
            crate::policy::stands_at(
                groups,
                resolved,
                candidates[entry].info,
                crate::monitor::lookup(later, entry),
            )
        }
}

/// Whether an inventory is what a search makes of another one.
pub open spec fn is_searched(
    before: InventoryView,
    found: Map<Entry, SnapshotView>,
    groups: Seq<DeviceGroup>,
    resolved: Seq<Seq<Option<Seq<u8>>>>,
    now: u64,
    after: InventoryView,
) -> bool {
    &&& crate::monitor::is_refreshed(before.candidates, found, after.candidates)
    &&& seen_in_time(before.seen, after.candidates, now, after.seen)
    &&& if before.grouped {
        placed_anew(before.places, after.candidates, groups, resolved, after.places)
    } else {
        after.places == Map::<Entry, Place>::empty()
    }
    &&& after.grouped == before.grouped
    &&& after.next_id == before.next_id
}

/// Whether an inventory is what the end of a takeover makes of another one. A number that no current
/// takeover has changes nothing.
pub open spec fn is_released(
    before: InventoryView,
    release: Release,
    now: u64,
    after: InventoryView,
) -> bool {
    ||| after == before && forall|entry: Entry| #[trigger]
        before.candidates.contains_key(entry) ==> !crate::monitor::is_active_with(
            before.candidates[entry],
            release.activation_id,
        )
    ||| exists|entry: Entry| #[trigger]
        before.candidates.contains_key(entry) && crate::monitor::is_active_with(
            before.candidates[entry],
            release.activation_id,
        ) && after == (InventoryView {
            candidates: before.candidates.insert(
                entry,
                before.candidates[entry].released(release.cause, now),
            ),
            ..before
        })
}

/// What a monitor waits for.
#[derive(Debug)]
pub enum MonitorInput {
    /// Something changed in a directory that is watched. With the name of what was deleted or moved
    /// away there, if that is what happened.
    Changed { left: Option<Vec<u8>> },
    /// No more changes are reported.
    Unwatched,
    /// A takeover ended, or no more ends are reported.
    Released(Option<Release>),
    /// It is time for a search.
    Tick,
    /// The deadline of the inventory has come.
    Deadline,
    /// Nobody listens any more.
    Closed,
}

/// What a monitor does next. All but a stop end with a round of attempts.
#[derive(Clone, Copy, Debug, PartialEq, Eq, Structural)]
pub enum MonitorStep {
    /// Watch the directories of other names that are there, and search.
    WatchAndSearch,
    Search,
    Reconcile,
    Stop,
}

/// The times at which candidates appeared: those that are known, and now for the new ones.
fn refresh_seen(
    seen: &EntryMap<u64>,
    candidates: &EntryMap<Candidate>,
    now: u64,
) -> (later: EntryMap<u64>)
    ensures
        seen_in_time(seen@, crate::monitor::candidate_views(candidates@), now, later@),
{
    let ghost known = crate::monitor::candidate_views(candidates@);
    let mut later: EntryMap<u64> = EntryMap::new();
    let entries = candidates.entries();
    let mut index: usize = 0;
    while index < entries.len()
        invariant
            index <= entries@.len(),
            forall|entry: Entry| #[trigger]
                entries@.contains(entry) <==> candidates@.contains_key(entry),
            forall|entry: Entry| #[trigger]
                later@.contains_key(entry) ==> entries@.contains(entry) && later@[entry]
                    == if seen@.contains_key(entry) {
                    seen@[entry]
                } else {
                    now
                },
            forall|at: int| 0 <= at < index ==> later@.contains_key(#[trigger] entries@[at]),
        decreases entries@.len() - index,
    {
        let entry = entries[index];
        assert(entries@.contains(entry));
        let time: u64 = match seen.get(entry) {
            Some(time) => *time,
            None => now,
        };
        later.insert(entry, time);
        index = index + 1;
    }
    proof {
        assert forall|entry: Entry| known.contains_key(entry) implies #[trigger] later@.contains_key(
            entry,
        ) by {
            assert(entries@.contains(entry));
            let at = choose|at: int| 0 <= at < entries@.len() && entries@[at] == entry;
            assert(later@.contains_key(entries@[at]));
        }
    }
    later
}

/// The place of each candidate. Those that are taken over keep theirs.
fn refresh_places(
    places: &EntryMap<Place>,
    candidates: &EntryMap<Candidate>,
    groups: &[DeviceGroup],
    resolved: &[Vec<Option<Vec<u8>>>],
) -> (later: EntryMap<Place>)
    requires
        crate::policy::paths_fit(groups@, resolved@),
    ensures
        placed_anew(
            places@,
            crate::monitor::candidate_views(candidates@),
            groups@,
            crate::listing::resolved_groups(resolved@),
            later@,
        ),
{
    let ghost known = crate::monitor::candidate_views(candidates@);
    let ghost paths = crate::listing::resolved_groups(resolved@);
    let mut later: EntryMap<Place> = EntryMap::new();
    let entries = candidates.entries();
    let mut index: usize = 0;
    while index < entries.len()
        invariant
            index <= entries@.len(),
            entries@.no_duplicates(),
            crate::policy::paths_fit(groups@, resolved@),
            known == crate::monitor::candidate_views(candidates@),
            paths == crate::listing::resolved_groups(resolved@),
            forall|entry: Entry| #[trigger]
                entries@.contains(entry) <==> candidates@.contains_key(entry),
            forall|entry: Entry| #[trigger]
                later@.contains_key(entry) ==> entries@.take(index as int).contains(entry),
            forall|at: int|
                0 <= at < index ==> if known[#[trigger] entries@[at]].state is Active {
                    crate::monitor::lookup(later@, entries@[at]) == crate::monitor::lookup(
                        places@,
                        entries@[at],
                    )
                } else {
                    crate::policy::stands_at(
                        groups@,
                        paths,
                        known[entries@[at]].info,
                        crate::monitor::lookup(later@, entries@[at]),
                    )
                },
        decreases entries@.len() - index,
    {
        let entry = entries[index];
        let ghost before = later@;
        proof {
            assert(entries@.contains(entry));
            crate::monitor::lemma_one_more(entries@, index as int);
            assert(!before.contains_key(entry));
        }
        let place = match candidates.get(entry) {
            Some(candidate) => match candidate.state {
                CandidateState::Active { .. } => match places.get(entry) {
                    Some(place) => Some(*place),
                    None => None,
                },
                _ => place_of(groups, resolved, &candidate.info),
            },
            None => None,
        };
        if let Some(place) = place {
            later.insert(entry, place);
        }
        proof {
            assert(crate::monitor::lookup(later@, entry) == place);
            assert forall|at: int| 0 <= at < index implies crate::monitor::lookup(
                later@,
                #[trigger] entries@[at],
            ) == crate::monitor::lookup(before, entries@[at]) by {
                assert(entries@[at] != entry);
            }
        }
        index = index + 1;
    }
    proof {
        assert(entries@.take(index as int) =~= entries@);
        assert forall|entry: Entry| #[trigger] known.contains_key(entry) implies exists|at: int|
            0 <= at < entries@.len() && #[trigger] entries@[at] == entry by {
            assert(entries@.contains(entry));
        }
    }
    later
}

impl Inventory {
    /// An inventory in which nothing was found yet. With groups, only their devices are taken over.
    pub fn new(grouped: bool) -> (inventory: Inventory)
        ensures
            inventory@.wf(),
            inventory@ == (InventoryView {
                candidates: Map::empty(),
                places: Map::empty(),
                seen: Map::empty(),
                grouped,
                next_id: 1,
            }),
    {
        let inventory = Inventory {
            candidates: EntryMap::new(),
            places: EntryMap::new(),
            seen: EntryMap::new(),
            grouped,
            next_id: 1,
        };
        proof {
            assert(inventory@.candidates =~= Map::empty());
            assert(inventory@.seen.dom() =~= inventory@.candidates.dom());
        }
        inventory
    }

    pub fn get(&self, entry: Entry) -> (candidate: Option<&Candidate>)
        ensures
            match candidate {
                Some(candidate) => self@.candidates.contains_key(entry)
                    && self@.candidates[entry] == candidate@,
                None => !self@.candidates.contains_key(entry),
            },
    {
        self.candidates.get(entry)
    }

    /// Brings the inventory up to date with a search. Returns the numbers of the takeovers whose
    /// end is to be reported, each once. The paths of the candidates of the groups are given as
    /// what they lead to.
    pub fn refresh(
        &mut self,
        snapshots: EntryMap<Snapshot>,
        groups: &[DeviceGroup],
        resolved: &[Vec<Option<Vec<u8>>>],
        now: u64,
    ) -> (removed: Vec<ActivationId>)
        requires
            old(self)@.wf(),
            crate::policy::paths_fit(groups@, resolved@),
        ensures
            final(self)@.wf(),
            is_searched(
                old(self)@,
                crate::scan::snapshot_views(snapshots@),
                groups@,
                crate::listing::resolved_groups(resolved@),
                now,
                final(self)@,
            ),
            removed@.no_duplicates(),
            forall|id: ActivationId| #[trigger]
                removed@.contains(id) <==> exists|entry: Entry|
                    crate::monitor::is_reported(
                        old(self)@.candidates,
                        crate::scan::snapshot_views(snapshots@),
                        entry,
                        id,
                    ),
    {
        let ghost before = self@;
        let ghost found = crate::scan::snapshot_views(snapshots@);
        let removed = refresh_inventory(&mut self.candidates, snapshots);
        let ghost after = crate::monitor::candidate_views(self.candidates@);
        self.seen = refresh_seen(&self.seen, &self.candidates, now);
        self.places = if self.grouped {
            refresh_places(&self.places, &self.candidates, groups, resolved)
        } else {
            EntryMap::new()
        };
        proof {
            crate::monitor::refreshing_keeps_ids_unique(
                before.candidates,
                found,
                after,
                before.next_id,
            );
            crate::groups::searches_keep_one_active(
                before.candidates,
                found,
                after,
                before.places,
                self@.places,
                before.seen,
                self@.seen,
            );
            assert forall|entry: Entry| #[trigger] self@.seen.contains_key(entry)
                <==> after.contains_key(entry) by {}
            assert(self@.seen.dom() =~= after.dom());
        }
        removed
    }

    /// Takes note of the end of a takeover. A number that no current takeover has is ignored.
    pub fn release(&mut self, release: Release, now: u64)
        requires
            old(self)@.wf(),
            now + BLOCKED_RETRY <= u64::MAX,
        ensures
            final(self)@.wf(),
            is_released(old(self)@, release, now, final(self)@),
    {
        let ghost before = self@;
        handle_release(&mut self.candidates, release, now);
        proof {
            if self@.candidates != before.candidates {
                let entry = choose|entry: Entry| #[trigger]
                    before.candidates.contains_key(entry) && crate::monitor::is_active_with(
                        before.candidates[entry],
                        release.activation_id,
                    ) && self@.candidates == before.candidates.insert(
                        entry,
                        before.candidates[entry].released(release.cause, now),
                    );
                crate::groups::other_changes_keep_one_active(
                    before.candidates,
                    before.places,
                    before.seen,
                    entry,
                    release.cause,
                    ClaimError::Busy,
                    now,
                );
                crate::monitor::other_changes_keep_ids_unique(
                    before.candidates,
                    entry,
                    Some(before.candidates[entry].released(release.cause, now)),
                    before.next_id,
                );
                assert(self@.candidates.dom() =~= before.candidates.dom());
            }
        }
    }

    /// Makes every candidate ready whose waiting time is over.
    pub fn expire(&mut self, now: u64)
        requires
            old(self)@.wf(),
        ensures
            final(self)@.wf(),
            final(self)@ == (InventoryView {
                candidates: old(self)@.candidates.map_values(
                    |candidate: CandidateView| crate::monitor::after_wait(candidate, now),
                ),
                ..old(self)@
            }),
    {
        let ghost before = self@;
        expire(&mut self.candidates, now);
        proof {
            crate::groups::waits_keep_one_active(
                before.candidates,
                before.places,
                before.seen,
                now,
            );
            crate::monitor::waits_keep_ids_unique(before.candidates, before.next_id, now);
            assert(self@.candidates.dom() =~= before.candidates.dom());
        }
    }

    /// Takes what a monitor waited for, and tells what to do next.
    pub fn on_input(
        &mut self,
        watches: &mut Watches,
        input: MonitorInput,
        now: u64,
    ) -> (step: Result<MonitorStep, IoError>)
        requires
            old(self)@.wf(),
            now + BLOCKED_RETRY <= u64::MAX,
        ensures
            final(self)@.wf(),
            match input {
                MonitorInput::Unwatched => step matches Err(err) && crate::claim::is_plain(
                    err,
                    ErrorKind::BrokenPipe,
                    "inotify event stream ended"@,
                ),
                MonitorInput::Changed { .. } => step == Ok::<MonitorStep, IoError>(
                    MonitorStep::WatchAndSearch,
                ),
                MonitorInput::Released(Some(_)) | MonitorInput::Tick => step == Ok::<
                    MonitorStep,
                    IoError,
                >(MonitorStep::Search),
                MonitorInput::Deadline => step == Ok::<MonitorStep, IoError>(
                    MonitorStep::Reconcile,
                ),
                MonitorInput::Released(None) | MonitorInput::Closed => step == Ok::<
                    MonitorStep,
                    IoError,
                >(MonitorStep::Stop),
            },
            match input {
                MonitorInput::Released(Some(release)) => is_released(
                    old(self)@,
                    release,
                    now,
                    final(self)@,
                ),
                MonitorInput::Deadline => final(self)@ == (InventoryView {
                    candidates: old(self)@.candidates.map_values(
                        |candidate: CandidateView| crate::monitor::after_wait(candidate, now),
                    ),
                    ..old(self)@
                }),
                _ => final(self)@ == old(self)@,
            },
            *final(watches) == match input {
                MonitorInput::Changed { left: Some(name) } => Watches {
                    by_id: old(watches).by_id && name@ != crate::monitor::by_id_name(),
                    by_path: old(watches).by_path && name@ != crate::monitor::by_path_name(),
                },
                _ => *old(watches),
            },
    {
        match input {
            MonitorInput::Changed { left } => {
                if let Some(name) = left {
                    watches.forget(name.as_slice());
                }
                Ok(MonitorStep::WatchAndSearch)
            },
            MonitorInput::Unwatched => Err(
                IoError::new(ErrorKind::BrokenPipe, "inotify event stream ended"),
            ),
            MonitorInput::Released(Some(release)) => {
                self.release(release, now);
                Ok(MonitorStep::Search)
            },
            MonitorInput::Tick => Ok(MonitorStep::Search),
            MonitorInput::Deadline => {
                self.expire(now);
                Ok(MonitorStep::Reconcile)
            },
            MonitorInput::Released(None) | MonitorInput::Closed => Ok(MonitorStep::Stop),
        }
    }

    /// A round over the candidates that are now ready, in the order of their paths.
    pub fn round(&self) -> (round: Reconcile)
        ensures
            round.wf(),
            !round@.retried,
            round@.left.no_duplicates(),
            forall|entry: Entry| #[trigger]
                round@.left.contains(entry) <==> self@.candidates.contains_key(entry)
                    && self@.candidates[entry].state == CandidateState::Ready,
            crate::monitor::paths_in_order(
                round@.left.map_values(|entry: Entry| self@.candidates[entry].info.path),
            ),
    {
        let round = Reconcile::new(&self.candidates);
        proof {
            assert forall|at: int| 0 <= at < round@.left.len() implies self@.candidates.contains_key(
                #[trigger] round@.left[at],
            ) by {
                assert(round@.left.contains(round@.left[at]));
            }
            assert(round@.left.map_values(|entry: Entry| self@.candidates[entry].info.path)
                =~= round@.left.map_values(|entry: Entry| self.candidates@[entry].info@.path));
        }
        round
    }

    /// The candidate of a round that is to be taken over next. Those before it that may not be
    /// taken over now are passed over.
    pub fn next(&self, round: &mut Reconcile, now: u64) -> (entry: Option<Entry>)
        requires
            self@.wf(),
            old(round).wf(),
        ensures
            final(round).wf(),
            exists|passed: int|
                {
                    &&& 0 <= passed <= old(round)@.left.len()
                    &&& final(round)@.left == #[trigger] old(round)@.left.skip(passed)
                    &&& final(round)@.retried == (old(round)@.retried && passed == 0)
                    &&& forall|at: int|
                        0 <= at < passed ==> !self@.admits(#[trigger] old(round)@.left[at], now)
                },
            match entry {
                Some(entry) => final(round)@.left.len() > 0 && entry == final(round)@.left[0]
                    && self@.admits(entry, now),
                None => final(round)@.left.len() == 0,
            },
    {
        let ghost before = round@;
        let ghost mut passed: int = 0;
        assert(before.left.skip(0) =~= before.left);
        loop
            invariant
                self@.wf(),
                round.wf(),
                before == old(round)@,
                0 <= passed <= before.left.len(),
                round@.left == before.left.skip(passed),
                round@.retried == (before.retried && passed == 0),
                forall|at: int|
                    0 <= at < passed ==> !self@.admits(#[trigger] before.left[at], now),
            decreases round@.left.len(),
        {
            match round.next() {
                Some(entry) => {
                    if self.admits(entry, now) {
                        return Some(entry);
                    }
                    round.skip();
                    proof {
                        assert(before.left.skip(passed).drop_first() =~= before.left.skip(
                            passed + 1,
                        ));
                        passed = passed + 1;
                    }
                },
                None => {
                    return None;
                },
            }
        }
    }

    /// Whether a candidate may be taken over.
    pub fn admits(&self, entry: Entry, now: u64) -> (admitted: bool)
        requires
            self@.wf(),
        ensures
            admitted == self@.admits(entry, now),
    {
        let ready = match self.candidates.get(entry) {
            Some(candidate) => match candidate.state {
                CandidateState::Ready => true,
                _ => false,
            },
            None => false,
        };
        if !ready {
            return false;
        }
        if !self.grouped {
            return true;
        }
        assert(crate::groups::all_seen(self.candidates@, self.seen@)) by {
            self.lemma_all_seen();
        }
        may_claim(&self.candidates, &self.places, &self.seen, entry, now)
    }

    proof fn lemma_all_seen(&self)
        requires
            self@.wf(),
        ensures
            crate::groups::all_seen(self.candidates@, self.seen@),
    {
        assert forall|entry: Entry| #[trigger] self.candidates@.contains_key(
            entry,
        ) implies self.seen@.contains_key(entry) by {
            assert(self@.candidates.contains_key(entry));
            assert(self@.seen.dom().contains(entry));
        }
    }

    /// Takes the result of an attempt to take over the next candidate of a round, which may be
    /// taken over. One that was interrupted is made once more. Any other is recorded, and the
    /// round goes on. Returns the number of the takeover, where it succeeded. Fails on a fatal
    /// error, and when there are no more numbers.
    pub fn advance(
        &mut self,
        round: &mut Reconcile,
        result: Result<(), ClaimError>,
        now: u64,
    ) -> (activation: Result<Option<ActivationId>, IoError>)
        requires
            old(self)@.wf(),
            old(round).wf(),
            old(round)@.left.len() > 0,
            exists|time: u64| old(self)@.admits(old(round)@.left[0], time),
            now + BLOCKED_RETRY <= u64::MAX,
        ensures
            final(self)@.wf(),
            final(round).wf(),
            ({
                let before = old(self)@;
                let entry = old(round)@.left[0];
                let again = !old(round)@.retried && result matches Err(ClaimError::Interrupted(_));
                &&& final(round)@ == if again {
                    ReconcileView { retried: true, ..old(round)@ }
                } else {
                    ReconcileView { left: old(round)@.left.drop_first(), retried: false }
                }
                &&& match (result, activation) {
                    (Ok(_), Ok(Some(id))) => id == before.next_id && id < u64::MAX && final(self)@
                        == before.taken_over(entry),
                    (Ok(_), Err(err)) => before.next_id == u64::MAX && final(self)@ == before
                        && crate::claim::is_plain(
                        err,
                        ErrorKind::Other,
                        "Input activation ID exhausted"@,
                    ),
                    (Err(error), Ok(None)) => !(error is Fatal) && final(self)@ == if again {
                        before
                    } else {
                        before.failed(entry, error, now)
                    },
                    (Err(error), Err(err)) => error == ClaimError::Fatal(err) && final(self)@
                        == before,
                    _ => false,
                }
            }),
    {
        let ghost before = self@;
        let ghost entry = round@.left[0];
        let ghost outcome = result;
        let current = round.next();
        assert(self.candidates@.contains_key(entry)) by {
            assert(self@.candidates.contains_key(entry));
        }
        let activation = round.advance(&mut self.candidates, result, &mut self.next_id, now);
        let ghost after = crate::monitor::candidate_views(self.candidates@);
        if let Some(current) = current {
            if self.candidates.get(current).is_none() {
                self.places.remove(current);
                self.seen.remove(current);
            }
        }
        proof {
            assert(after.contains_key(entry) == self.candidates@.contains_key(entry));
            let time = choose|time: u64| before.admits(entry, time);
            match outcome {
                Ok(_) => {
                    if before.next_id < u64::MAX {
                        if before.grouped {
                            crate::groups::claims_keep_one_active(
                                before.candidates,
                                before.places,
                                before.seen,
                                entry,
                                before.next_id,
                                time,
                            );
                        }
                        crate::monitor::claiming_keeps_ids_unique(
                            before.candidates,
                            entry,
                            before.next_id,
                        );
                        assert(after.dom() =~= before.candidates.dom());
                    }
                },
                Err(error) => {
                    let changed = crate::monitor::after_failed_claim(
                        before.candidates[entry],
                        error,
                        now,
                    );
                    let settled = crate::monitor::with_candidate(before.candidates, entry, changed);
                    crate::groups::other_changes_keep_one_active(
                        before.candidates,
                        before.places,
                        before.seen,
                        entry,
                        crate::monitor::ReleaseCause::Failed,
                        error,
                        now,
                    );
                    crate::monitor::other_changes_keep_ids_unique(
                        before.candidates,
                        entry,
                        changed,
                        before.next_id,
                    );
                    if changed is Some {
                        assert(settled.dom() =~= before.candidates.dom());
                    } else {
                        assert(crate::groups::members_of(
                            settled,
                            before.places.remove(entry),
                            before.seen.remove(entry),
                        ) =~= crate::groups::members_of(settled, before.places, before.seen));
                        assert(before.seen.remove(entry).dom() =~= settled.dom());
                        assert(before.places.remove(entry).dom() <= settled.dom());
                        assert(!before.grouped ==> before.places.remove(entry) =~= Map::<
                            Entry,
                            Place,
                        >::empty());
                    }
                },
            }
        }
        activation
    }

    /// The first time at which something can change for a candidate by itself: its wait is over,
    /// or its delay.
    pub fn deadline(&self, now: u64) -> (deadline: Option<u64>)
        requires
            self@.wf(),
        ensures
            match deadline {
                Some(deadline) => {
                    &&& exists|entry: Entry| #[trigger] self@.wakes(entry, now) == Some(
                        deadline as int,
                    )
                    &&& forall|entry: Entry| #[trigger] self@.wakes(entry, now) matches Some(
                        other,
                    ) ==> deadline <= other
                },
                None => forall|entry: Entry| #[trigger] self@.wakes(entry, now) matches Some(
                    other,
                ) ==> other > u64::MAX,
            },
    {
        proof {
            self.lemma_all_seen();
        }
        let retry = next_deadline(&self.candidates);
        let due = next_due(&self.candidates, &self.places, &self.seen, now);
        proof {
            assert forall|entry: Entry| #[trigger]
                crate::groups::awaited(self@.members(), entry, now) is Some implies self@.wakes(
                entry,
                now,
            ) == crate::groups::awaited(self@.members(), entry, now) by {
                assert(self@.members().contains_key(entry));
            }
            assert forall|entry: Entry| #[trigger]
                self.candidates@.contains_key(entry) && self.candidates@[entry]@.retry_time() is Some implies self@.wakes(
                entry,
                now,
            ) == Some(self.candidates@[entry]@.retry_time()->0 as int) by {}
            assert forall|entry: Entry| #[trigger] self@.wakes(entry, now) is Some implies (
            self.candidates@.contains_key(entry) && self.candidates@[entry]@.retry_time() is Some)
                || crate::groups::awaited(self@.members(), entry, now) is Some by {}
        }
        match (retry, due) {
            (Some(retry), Some(due)) => if retry < due {
                Some(retry)
            } else {
                Some(due)
            },
            (Some(retry), None) => Some(retry),
            (None, due) => due,
        }
    }
}

/// A takeover lasts until its end is taken note of: no search, no attempt on another device and no
/// passing of time ends it, and meanwhile no other device of its group may be taken over, not even
/// a preferred one.
pub proof fn takeovers_are_not_replaced(
    before: InventoryView,
    active: Entry,
    id: ActivationId,
    entry: Entry,
    error: ClaimError,
    now: u64,
)
    requires
        before.wf(),
        before.candidates.contains_key(active),
        crate::monitor::is_active_with(before.candidates[active], id),
    ensures
        before.admits(entry, now) ==> {
            &&& before.taken_over(entry).candidates.contains_key(active)
            &&& crate::monitor::is_active_with(before.taken_over(entry).candidates[active], id)
            &&& before.failed(entry, error, now).candidates.contains_key(active)
            &&& crate::monitor::is_active_with(
                before.failed(entry, error, now).candidates[active],
                id,
            )
        },
        before.admits(entry, now) && before.places.contains_key(active)
            ==> before.places[entry].group != before.places[active].group,
        crate::monitor::is_active_with(
            crate::monitor::after_wait(before.candidates[active], now),
            id,
        ),
{
    if before.admits(entry, now) && before.places.contains_key(active) {
        assert(before.members().contains_key(active));
        assert(!before.members()[active].excludes(before.members()[entry]));
    }
}

/// A search neither ends a takeover nor moves its device to another place.
pub proof fn searches_leave_takeovers(
    before: InventoryView,
    found: Map<Entry, SnapshotView>,
    groups: Seq<DeviceGroup>,
    resolved: Seq<Seq<Option<Seq<u8>>>>,
    now: u64,
    after: InventoryView,
    active: Entry,
    id: ActivationId,
)
    requires
        before.wf(),
        is_searched(before, found, groups, resolved, now, after),
        before.candidates.contains_key(active),
        crate::monitor::is_active_with(before.candidates[active], id),
    ensures
        after.candidates.contains_key(active),
        crate::monitor::is_active_with(after.candidates[active], id),
        crate::monitor::lookup(after.places, active) == crate::monitor::lookup(
            before.places,
            active,
        ),
{
    crate::monitor::takeovers_outlast_searches(
        before.candidates,
        found,
        after.candidates,
        active,
        id,
    );
}

} // verus!
