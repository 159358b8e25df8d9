//! What taking over a device asks of it, and what becomes of one that cannot be taken over.

use vstd::prelude::*;

use crate::claim::{ClaimError, ClaimReply, ClaimStep};
use crate::entry::Entry;
use crate::interceptor::CreateError;
use crate::io_error::IoError;
use crate::monitor::{ActivationId, CandidateState, CandidateView, ReleaseCause};
use crate::scan::SnapshotView;

verus! {

/// A device is taken over exactly if it is not owned yet, is still the node that was found, matches
/// the policy, has no switches, can be grabbed and reproduced, and its nodes are not registered yet.
/// No axis stands in the way, but one that cannot be disabled.
pub proof fn devices_are_taken_over_unless(expected: Entry, reply: ClaimReply)
    ensures
        reply matches ClaimReply::Owned(owned) ==> crate::claim::goes_on(expected, reply) == !owned,
        reply matches ClaimReply::Opened(Ok(entry)) ==> crate::claim::goes_on(expected, reply) == (
        entry.device == expected.device && entry.inode == expected.inode),
        reply matches ClaimReply::Opened(Err(_)) ==> !crate::claim::goes_on(expected, reply),
        reply matches ClaimReply::Inspected(Ok(matched)) ==> crate::claim::goes_on(expected, reply)
            == matched,
        reply matches ClaimReply::Inspected(Err(_)) ==> !crate::claim::goes_on(expected, reply),
        reply matches ClaimReply::Registered(new) ==> crate::claim::goes_on(expected, reply) == new,
        reply matches ClaimReply::Switches(switches) ==> crate::claim::goes_on(expected, reply) == (
        switches != 1),
        reply is Axis ==> crate::claim::goes_on(expected, reply),
        reply matches ClaimReply::Disabled(ret) ==> crate::claim::goes_on(expected, reply) == (ret
            >= 0),
        reply matches ClaimReply::Grabbed(ret) ==> crate::claim::goes_on(expected, reply) == (ret
            >= 0),
        reply matches ClaimReply::WriterMade(made) ==> crate::claim::goes_on(expected, reply)
            == made is Ok,
        reply matches ClaimReply::WriterFound(found) ==> crate::claim::goes_on(expected, reply)
            == found,
        reply matches ClaimReply::WriterIdentified(identified) ==> crate::claim::goes_on(
            expected,
            reply,
        ) == identified is Ok,
        reply matches ClaimReply::WriterRegistered(new) ==> crate::claim::goes_on(expected, reply)
            == new,
{
}

/// How far a claim has come. All axes are read between two of its stages.
pub open spec fn stage(step: ClaimStep) -> int {
    match step {
        ClaimStep::CheckOwned => 0,
        ClaimStep::Open => 1,
        ClaimStep::Inspect => 2,
        ClaimStep::Register => 3,
        ClaimStep::CheckSwitches => 4,
        ClaimStep::ReadAxis { .. } => 5,
        ClaimStep::DisableAxis { .. } => 5,
        ClaimStep::Grab => 6,
        ClaimStep::MakeWriter => 7,
        ClaimStep::FindWriter => 8,
        ClaimStep::IdentifyWriter => 9,
        ClaimStep::RegisterWriter => 10,
        ClaimStep::Done => 11,
    }
}

/// Every step is taken, in order. Every axis is read, from the first to the last, and exactly those
/// whose maximum is below their minimum are disabled.
pub proof fn claims_take_every_step(step: ClaimStep, reply: ClaimReply)
    requires
        crate::claim::answers(step, reply),
    ensures
        stage(step) != 5 ==> stage(crate::claim::step_after(step, reply)) == stage(step) + 1,
        step is CheckSwitches ==> crate::claim::step_after(step, reply) == (ClaimStep::ReadAxis {
            axis: 0,
        }),
        step matches ClaimStep::ReadAxis { axis } ==> {
            let next = crate::claim::step_after(step, reply);
            let disables = reply matches ClaimReply::Axis(Some((min, max))) && max < min;
            if disables {
                next == (ClaimStep::DisableAxis { axis })
            } else if axis == 63 {
                next is Grab
            } else {
                next matches ClaimStep::ReadAxis { axis: following } && following == axis + 1
            }
        },
        step matches ClaimStep::DisableAxis { axis } ==> {
            let next = crate::claim::step_after(step, reply);
            if axis == 63 {
                next is Grab
            } else {
                next matches ClaimStep::ReadAxis { axis: following } && following == axis + 1
            }
        },
{
}

/// What an error of a device means is told by its code: the device is gone, the work was
/// interrupted, access is denied, or the device is of the wrong sort. The error itself is kept.
pub proof fn errors_are_told_apart_by_code(err: IoError)
    ensures
        ({
            let error = crate::claim::source_error(err);
            &&& (error == ClaimError::Gone(err)) == (err.os_code == Some(2i32) || err.os_code
                == Some(19i32))
            &&& (error == ClaimError::Interrupted(err)) == (err.os_code == Some(4i32))
            &&& (error == ClaimError::Permission(err)) == (err.os_code == Some(1i32) || err.os_code
                == Some(13i32))
            &&& (error == ClaimError::Unsupported(err)) == (err.os_code == Some(22i32)
                || err.os_code == Some(25i32))
            &&& error == ClaimError::Gone(err) || error == ClaimError::Interrupted(err) || error
                == ClaimError::Permission(err) || error == ClaimError::Unsupported(err) || error
                == ClaimError::Other(err)
        }),
{
}

/// What stands in the way of a takeover is said: whose node it is, that it changed, that the policy
/// does not ask for it, that it has switches, that it is busy, or which error there was.
pub proof fn refusals_say_why(reply: ClaimReply, error: ClaimError)
    requires
        crate::claim::is_error_of(reply, error),
    ensures
        reply is Owned || reply is Registered ==> error is Owned,
        reply matches ClaimReply::Opened(Ok(_)) ==> error is Stale,
        reply matches ClaimReply::Inspected(Ok(_)) ==> error is NotApplicable,
        reply is Switches ==> error is Unsupported,
        reply matches ClaimReply::Grabbed(ret) ==> (ret == -16 ==> error is Busy) && (ret != -16
            ==> !(error is Busy)),
        reply matches ClaimReply::Opened(Err(err)) ==> error == crate::claim::source_error(err),
        reply matches ClaimReply::Inspected(Err(err)) ==> error == crate::claim::source_error(err),
        reply matches ClaimReply::WriterMade(Err(CreateError::Open(err))) ==> error
            == ClaimError::Fatal(err),
        reply matches ClaimReply::WriterMade(Err(CreateError::Create(err))) ==> error
            == ClaimError::Output(err),
        reply matches ClaimReply::WriterIdentified(Err(err)) ==> error == ClaimError::Fatal(err),
        reply is WriterFound || reply is WriterRegistered ==> error is Fatal,
        !(reply is Axis),
{
}

/// Whether two candidates differ in nothing but their state and the number of failures.
pub open spec fn same_device(one: CandidateView, other: CandidateView) -> bool {
    one.info == other.info && one.aliases == other.aliases
}

/// A device that is gone, or is another one by now, is dropped.
pub open spec fn drops(error: ClaimError) -> bool {
    error is Gone || error is Stale || error is Owned || (error matches ClaimError::Output(err) && (
    err.os_code == Some(2i32) || err.os_code == Some(19i32) || err.os_code == Some(5i32)))
}

/// After a failure that may pass soon, a device waits longer and longer.
pub open spec fn backs_off(error: ClaimError) -> bool {
    error is Busy || error is Interrupted || (error matches ClaimError::Output(err) && err.os_code
        == Some(4i32))
}

/// What becomes of a candidate after a failed attempt: it is dropped if it is gone, waits if the
/// failure may pass soon, is left alone for five seconds if it may not, or for good if the device
/// cannot be taken over or is not asked for. Its facts and names stay, and so do its failures where
/// it does not wait.
pub proof fn failed_attempts_are_followed_up(candidate: CandidateView, error: ClaimError, now: u64)
    requires
        now + 5000 <= u64::MAX,
    ensures
        (crate::monitor::after_failed_claim(candidate, error, now) is None) == drops(error),
        crate::monitor::after_failed_claim(candidate, error, now) matches Some(after) ==> {
            &&& same_device(candidate, after)
            &&& backs_off(error) ==> after.state == (CandidateState::Waiting {
                until: (now + crate::monitor::backoff_delay(candidate.failures as int)) as u64,
            }) && (candidate.failures < usize::MAX ==> after.failures == candidate.failures + 1)
            &&& !backs_off(error) ==> after.failures == candidate.failures
            &&& error is Permission || error is Other || (error is Output && !backs_off(error))
                ==> after.state == (CandidateState::Blocked { until: (now + 5000) as u64 })
            &&& error is Unsupported ==> after.state == CandidateState::Unsupported
            &&& error is NotApplicable ==> after.state == CandidateState::Rejected
            &&& error is Fatal ==> after.state == candidate.state
        },
{
}

/// The waits after failures in a row are a tenth, a quarter and half of a second, one second, and
/// two from then on.
pub proof fn waits_are_bounded(failures: int)
    ensures
        failures == 0 ==> crate::monitor::backoff_delay(failures) == 100,
        failures == 1 ==> crate::monitor::backoff_delay(failures) == 250,
        failures == 2 ==> crate::monitor::backoff_delay(failures) == 500,
        failures == 3 ==> crate::monitor::backoff_delay(failures) == 1000,
        failures > 3 ==> crate::monitor::backoff_delay(failures) == 2000,
{
}

/// A takeover makes a candidate active under its number, with no end requested and no failures. Its
/// end makes it ready again, or leaves it alone for five seconds where it failed, with no failures
/// either. Its facts and names stay.
pub proof fn takeovers_begin_and_end(
    candidate: CandidateView,
    id: ActivationId,
    cause: ReleaseCause,
    now: u64,
)
    requires
        now + 5000 <= u64::MAX,
    ensures
        ({
            let taken = crate::monitor::after_claim(candidate, id);
            let ended = candidate.released(cause, now);
            &&& taken.state == (CandidateState::Active { activation_id: id, removal_sent: false })
            &&& taken.failures == 0
            &&& same_device(candidate, taken)
            &&& cause == ReleaseCause::Disconnected ==> ended.state == CandidateState::Ready
            &&& cause == ReleaseCause::Failed ==> ended.state == (CandidateState::Blocked {
                until: (now + 5000) as u64,
            })
            &&& ended.failures == 0
            &&& same_device(candidate, ended)
        }),
{
}

/// A wait that is over makes a candidate ready, and nothing else about it changes. One that is not
/// over leaves it as it is, as does time for a candidate that does not wait.
pub proof fn waits_end_in_time(candidate: CandidateView, now: u64)
    ensures
        ({
            let after = crate::monitor::after_wait(candidate, now);
            let over = match candidate.state {
                CandidateState::Waiting { until } => until <= now,
                CandidateState::Blocked { until } => until <= now,
                _ => false,
            };
            &&& over ==> after.state == CandidateState::Ready && same_device(candidate, after)
                && after.failures == candidate.failures
            &&& !over ==> after == candidate
            &&& candidate.retry_time() == match candidate.state {
                CandidateState::Waiting { until } => Some(until),
                CandidateState::Blocked { until } => Some(until),
                _ => None,
            }
        }),
{
}

/// What a search does to a node that it finds as a device: a new one is ready, or rejected where
/// the policy does not ask for it. A known one has its facts and names brought up to date and keeps
/// its state, unless the policy does not ask for it any more: then it is rejected, or its takeover
/// is to end.
pub proof fn found_devices_are_kept(
    known: Map<Entry, CandidateView>,
    found: Map<Entry, SnapshotView>,
    after: Map<Entry, CandidateView>,
    entry: Entry,
)
    requires
        crate::monitor::is_refreshed(known, found, after),
        found.contains_key(entry),
        found[entry] is Candidate,
    ensures
        after.contains_key(entry),
        after[entry].info == found[entry]->info,
        after[entry].aliases == found[entry]->Candidate_aliases,
        !known.contains_key(entry) ==> after[entry].failures == 0 && after[entry].state
            == if found[entry]->eligible {
            CandidateState::Ready
        } else {
            CandidateState::Rejected
        },
        known.contains_key(entry) ==> after[entry].failures == known[entry].failures,
        known.contains_key(entry) && found[entry]->eligible ==> after[entry].state
            == known[entry].state,
        known.contains_key(entry) && !found[entry]->eligible ==> after[entry].state
            == match known[entry].state {
            CandidateState::Active { activation_id, .. } => CandidateState::Active {
                activation_id,
                removal_sent: true,
            },
            _ => CandidateState::Rejected,
        },
{
    assert(crate::monitor::lookup(after, entry) == crate::monitor::refreshed_one(
        crate::monitor::lookup(known, entry),
        crate::monitor::lookup(found, entry),
    ));
}

/// What a search does to a node that it does not find as a device: a candidate that is not taken
/// over is dropped. One that is stays, with its end requested if the node is gone, and with its
/// names brought up to date if it is there and owned, which is what a takeover makes of it.
pub proof fn missing_devices_are_dropped(
    known: Map<Entry, CandidateView>,
    found: Map<Entry, SnapshotView>,
    after: Map<Entry, CandidateView>,
    entry: Entry,
)
    requires
        crate::monitor::is_refreshed(known, found, after),
        !(found.contains_key(entry) && found[entry] is Candidate),
    ensures
        after.contains_key(entry) == (known.contains_key(entry) && known[entry].state is Active),
        after.contains_key(entry) ==> {
            &&& after[entry].info == known[entry].info
            &&& after[entry].failures == known[entry].failures
            &&& found.contains_key(entry) ==> after[entry].state == known[entry].state
                && after[entry].aliases == found[entry]->Owned_aliases
            &&& !found.contains_key(entry) ==> after[entry].aliases == known[entry].aliases && (
            known[entry].state matches CandidateState::Active { activation_id, .. }
                && after[entry].state == (CandidateState::Active {
                activation_id,
                removal_sent: true,
            }))
        },
{
    assert(crate::monitor::lookup(after, entry) == crate::monitor::refreshed_one(
        crate::monitor::lookup(known, entry),
        crate::monitor::lookup(found, entry),
    ));
}

/// The end of a takeover is reported exactly if it was not requested before and the node is gone,
/// or is there as a device that the policy does not ask for.
pub proof fn lost_takeovers_are_reported(
    known: Map<Entry, CandidateView>,
    found: Map<Entry, SnapshotView>,
    entry: Entry,
    id: ActivationId,
)
    ensures
        crate::monitor::is_reported(known, found, entry, id) <==> {
            &&& known.contains_key(entry)
            &&& known[entry].state == (CandidateState::Active {
                activation_id: id,
                removal_sent: false,
            })
            &&& !found.contains_key(entry) || (found[entry] is Candidate && !found[entry]->eligible)
        },
{
}

} // verus!
