//! What the connection to a client promises as a whole.

use vstd::prelude::*;

use crate::io_error::IoError;
use crate::session::{
    AuthReply, AuthStatus, AuthStep, ClientError, Happening, HeartbeatView, Moment, Version,
    Written,
};

verus! {

/// Whether a moment has a ping written: time passed, no answer is outstanding and the ping is due.
pub open spec fn is_ping(heartbeat: HeartbeatView, moments: Seq<Moment>, at: int) -> bool {
    let before = heartbeat.after_all(moments.take(at));
    moments[at].happening is Time && before.awaited is None && before.due <= moments[at].at
}

/// Whether no answer comes after a moment.
pub open spec fn is_unanswered(moments: Seq<Moment>, at: int) -> bool {
    forall|later: int|
        at < later < moments.len() ==> !((#[trigger] moments[later]).happening is Pong)
}

proof fn lemma_one_more_moment(heartbeat: HeartbeatView, moments: Seq<Moment>, at: int)
    requires
        moments.len() > 0,
        0 <= at < moments.len() - 1,
    ensures
        is_ping(heartbeat, moments, at) == is_ping(heartbeat, moments.drop_last(), at),
{
    assert(moments.take(at) =~= moments.drop_last().take(at));
}

/// After an answer none is outstanding, and the client is not given up, whatever the time is. The
/// answer changes neither when the next ping is due nor the times that were set.
pub proof fn answers_are_accepted(heartbeat: HeartbeatView, now: int, at: int, done: int)
    ensures
        heartbeat.answered().awaited is None,
        heartbeat.answered().due == heartbeat.due,
        heartbeat.answered().interval == heartbeat.interval,
        heartbeat.answered().patience == heartbeat.patience,
        !heartbeat.answered().is_overdue(now),
        heartbeat.after(Moment { happening: Happening::Pong, at, done }) == heartbeat.answered(),
{
}

/// An answer is outstanding exactly since the last ping that no answer followed, and must have come
/// by the time at which that ping was written and the patience after it.
pub proof fn pings_wait_for_their_answers(heartbeat: HeartbeatView, moments: Seq<Moment>)
    requires
        heartbeat.awaited is None,
    ensures
        match heartbeat.after_all(moments).awaited {
            Some(by) => exists|at: int|
                0 <= at < moments.len() && #[trigger] is_ping(heartbeat, moments, at)
                    && is_unanswered(moments, at) && by == moments[at].done + heartbeat.patience,
            None => forall|at: int|
                0 <= at < moments.len() && #[trigger] is_ping(heartbeat, moments, at)
                    ==> !is_unanswered(moments, at),
        },
        heartbeat.after_all(moments).patience == heartbeat.patience,
        heartbeat.after_all(moments).interval == heartbeat.interval,
    decreases moments.len(),
{
    if moments.len() > 0 {
        let shorter = moments.drop_last();
        let last = moments.len() - 1;
        let before = heartbeat.after_all(shorter);
        let after = heartbeat.after_all(moments);
        pings_wait_for_their_answers(heartbeat, shorter);
        assert(moments.take(last) =~= shorter);
        match moments[last].happening {
            Happening::Pong => {
                assert forall|at: int|
                    0 <= at < moments.len() && #[trigger] is_ping(
                        heartbeat,
                        moments,
                        at,
                    ) implies !is_unanswered(moments, at) by {
                    assert(at != last);
                    assert(moments[last].happening is Pong);
                }
            },
            _ => {
                if after.awaited is Some {
                    if before.awaited is Some {
                        let at = choose|at: int|
                            0 <= at < shorter.len() && #[trigger] is_ping(heartbeat, shorter, at)
                                && is_unanswered(shorter, at) && before.awaited == Some(
                                shorter[at].done + heartbeat.patience,
                            );
                        lemma_one_more_moment(heartbeat, moments, at);
                        assert forall|later: int| at < later < moments.len() implies !((
                        #[trigger] moments[later]).happening is Pong) by {
                            if later < last {
                                assert(moments[later] == shorter[later]);
                            }
                        }
                        assert(is_ping(heartbeat, moments, at));
                    } else {
                        assert(is_ping(heartbeat, moments, last));
                        assert(is_unanswered(moments, last));
                    }
                } else {
                    assert forall|at: int|
                        0 <= at < moments.len() && #[trigger] is_ping(
                            heartbeat,
                            moments,
                            at,
                        ) implies !is_unanswered(moments, at) by {
                        if at < last {
                            lemma_one_more_moment(heartbeat, moments, at);
                            assert(!is_unanswered(shorter, at));
                            let later = choose|later: int|
                                at < later < shorter.len() && (
                                #[trigger] shorter[later]).happening is Pong;
                            assert(moments[later].happening is Pong);
                        }
                    }
                }
            },
        }
    }
}

/// A client that answers is kept: if before some moment every ping was answered, or its time for
/// the answer is not over, the client is not given up at that moment.
pub proof fn answering_clients_are_kept(
    heartbeat: HeartbeatView,
    moments: Seq<Moment>,
    now: int,
)
    requires
        heartbeat.awaited is None,
        forall|at: int|
            0 <= at < moments.len() && #[trigger] is_ping(heartbeat, moments, at) && is_unanswered(
                moments,
                at,
            ) ==> now < moments[at].done + heartbeat.patience,
    ensures
        !heartbeat.after_all(moments).is_overdue(now),
{
    pings_wait_for_their_answers(heartbeat, moments);
}

/// A client that does not answer is given up: from the patience after an unanswered ping on it is
/// overdue.
pub proof fn unanswering_clients_are_given_up(
    heartbeat: HeartbeatView,
    moments: Seq<Moment>,
    at: int,
    now: int,
)
    requires
        heartbeat.awaited is None,
        0 <= at < moments.len(),
        is_ping(heartbeat, moments, at),
        is_unanswered(moments, at),
    ensures
        heartbeat.after_all(moments).is_overdue(now) == (moments[at].done + heartbeat.patience
            <= now),
    decreases moments.len(),
{
    let shorter = moments.drop_last();
    let last = moments.len() - 1;
    assert(moments.take(last) =~= shorter);
    pings_wait_for_their_answers(heartbeat, shorter);
    if at < last {
        lemma_one_more_moment(heartbeat, moments, at);
        assert forall|later: int| at < later < shorter.len() implies !((
        #[trigger] shorter[later]).happening is Pong) by {
            assert(shorter[later] == moments[later]);
        }
        unanswering_clients_are_given_up(heartbeat, shorter, at, now);
        assert(!(moments[last].happening is Pong));
        assert(heartbeat.after_all(shorter).awaited is Some);
    }
}

/// A ping is due exactly an interval after the last thing that was written: after the end of an
/// update, or after the moment of a ping. Until something is written, it is due when it was.
pub proof fn pings_are_due_after_the_last_write(heartbeat: HeartbeatView, moments: Seq<Moment>)
    ensures
        ({
            let written = heartbeat.written(moments);
            heartbeat.after_all(moments).due == if written.len() == 0 {
                heartbeat.due
            } else if written.last().update is Some {
                written.last().done + heartbeat.interval
            } else {
                written.last().at + heartbeat.interval
            }
        }),
        heartbeat.after_all(moments).interval == heartbeat.interval,
    decreases moments.len(),
{
    if moments.len() > 0 {
        pings_are_due_after_the_last_write(heartbeat, moments.drop_last());
    }
}

/// An idle client is asked: when time passes, a ping is written exactly if no answer is outstanding
/// and the ping is due. An update is always written, and an answer never has anything written.
pub proof fn idle_clients_are_asked(heartbeat: HeartbeatView, moments: Seq<Moment>, moment: Moment)
    ensures
        ({
            let before = heartbeat.written(moments);
            let state = heartbeat.after_all(moments);
            heartbeat.written(moments.push(moment)) == match moment.happening {
                Happening::Time => if state.awaited is None && state.due <= moment.at {
                    before.push(Written { update: None, at: moment.at, done: moment.done })
                } else {
                    before
                },
                Happening::Update(update) => before.push(
                    Written { update: Some(update), at: moment.at, done: moment.done },
                ),
                Happening::Pong => before,
            }
        }),
{
    let longer = moments.push(moment);
    assert(longer.drop_last() =~= moments);
    let before = heartbeat.written(moments);
    assert(before + Seq::<Written>::empty() =~= before);
}

/// How far an authentication has come.
pub open spec fn stage(step: AuthStep) -> int {
    match step {
        AuthStep::Encrypt => 0,
        AuthStep::SendVersion => 1,
        AuthStep::ReceiveVersion => 2,
        AuthStep::MakeChallenge => 3,
        AuthStep::SendChallenge => 4,
        AuthStep::Verify => 5,
        AuthStep::SendStatus { .. } => 6,
        AuthStep::Done => 7,
    }
}

/// Every step is taken, in order, and the client is told that it passed exactly if its response is
/// right.
pub proof fn authentication_takes_every_step(step: AuthStep, reply: AuthReply)
    requires
        crate::session::answers(step, reply),
    ensures
        stage(crate::session::auth_next(step, reply)) == stage(step) + 1,
        crate::session::auth_next(step, reply) matches AuthStep::SendStatus { status } ==> (status
            == AuthStatus::Passed) == (reply == AuthReply::Response(Ok::<bool, IoError>(true))),
{
}

/// Whether a reply says that the work failed, and how.
pub open spec fn reply_failure(reply: AuthReply) -> Option<IoError> {
    match reply {
        AuthReply::Finished(Err(err)) => Some(err),
        AuthReply::Version(Err(err)) => Some(err),
        AuthReply::Challenge(Err(err)) => Some(err),
        AuthReply::Response(Err(err)) => Some(err),
        _ => None,
    }
}

/// A client is turned away for a failure of the work, for another version, or after it was told
/// that its response was wrong, and for nothing else. The error says which.
pub proof fn clients_are_turned_away_for_a_reason(server: Version, step: AuthStep, reply: AuthReply)
    requires
        crate::session::answers(step, reply),
    ensures
        crate::session::auth_error(server, step, reply) is None <==> reply_failure(reply) is None
            && !(reply matches AuthReply::Version(Ok(client)) && client.number != server.number)
            && !(step matches AuthStep::SendStatus { status } && status == AuthStatus::Failed),
        reply_failure(reply) matches Some(err) ==> crate::session::auth_error(server, step, reply)
            == Some(
            if reply is Challenge {
                ClientError::Rand(err)
            } else {
                ClientError::Io(err)
            },
        ),
        reply matches AuthReply::Version(Ok(client)) ==> client.number != server.number
            ==> crate::session::auth_error(server, step, reply) == Some(
            ClientError::Version { server, client },
        ),
        reply_failure(reply) is None && (step matches AuthStep::SendStatus { status } && status
            == AuthStatus::Failed) ==> crate::session::auth_error(server, step, reply) == Some(
            ClientError::Auth,
        ),
{
}

} // verus!
