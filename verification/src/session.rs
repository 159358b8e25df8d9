//! The connection to a client: its authentication, its updates and its sign of life.

use vstd::prelude::*;

use crate::io_error::{ErrorKind, IoError};
use crate::text::push_decimal;
use crate::update::{DeviceCommand, Update, UpdateView};

verus! {

/// A version of the protocol.
#[derive(Clone, Copy, Debug, PartialEq, Eq, Structural)]
pub struct Version {
    pub number: u16,
}

/// Why a client was turned away or lost.
#[derive(Debug)]
pub enum ClientError {
    Io(IoError),
    Version { server: Version, client: Version },
    Auth,
    Rand(IoError),
}

impl ClientError {
    /// The text of the error.
    pub open spec fn text(self) -> Seq<char> {
        match self {
            ClientError::Io(err) => err.message@,
            ClientError::Version { server, client } => "Incompatible client version (got "@
                + crate::text::decimal(client.number as nat) + ", expected "@ + crate::text::decimal(
                server.number as nat,
            ) + ")"@,
            ClientError::Auth => "Invalid password"@,
            ClientError::Rand(err) => err.message@,
        }
    }

    pub fn message(&self) -> (text: String)
        ensures
            text@ == self.text(),
    {
        let mut text = String::new();
        match self {
            ClientError::Io(err) | ClientError::Rand(err) => {
                text.append(err.message.as_str());
            },
            ClientError::Version { server, client } => {
                text.append("Incompatible client version (got ");
                push_decimal(&mut text, client.number as u64);
                text.append(", expected ");
                push_decimal(&mut text, server.number as u64);
                text.append(")");
            },
            ClientError::Auth => {
                text.append("Invalid password");
            },
        }
        proof {
            assert(text@ =~= self.text());
        }
        text
    }
}

/// What a client is told about its password.
#[derive(Clone, Copy, Debug, PartialEq, Eq, Structural)]
pub enum AuthStatus {
    Passed,
    Failed,
}

/// What has to be done next to authenticate a client.
#[derive(Clone, Copy, Debug, PartialEq, Eq, Structural)]
pub enum AuthStep {
    /// Set up encryption.
    Encrypt,
    /// Send the version of the server.
    SendVersion,
    /// Receive the version of the client.
    ReceiveVersion,
    /// Make up a challenge.
    MakeChallenge,
    /// Send the challenge.
    SendChallenge,
    /// Receive the response and verify it.
    Verify,
    /// Tell the client how it went.
    SendStatus { status: AuthStatus },
    /// The client is authenticated.
    Done,
}

/// How a step went.
#[derive(Debug)]
pub enum AuthReply {
    /// The work of a step without a result of its own.
    Finished(Result<(), IoError>),
    /// The client's version.
    Version(Result<Version, IoError>),
    /// A challenge was made up, or there was no randomness for it.
    Challenge(Result<(), IoError>),
    /// The client's response came, and is right or wrong.
    Response(Result<bool, IoError>),
}

/// Whether a reply answers a step.
pub open spec fn answers(step: AuthStep, reply: AuthReply) -> bool {
    match step {
        AuthStep::Encrypt
        | AuthStep::SendVersion
        | AuthStep::SendChallenge
        | AuthStep::SendStatus { .. } => reply is Finished,
        AuthStep::ReceiveVersion => reply is Version,
        AuthStep::MakeChallenge => reply is Challenge,
        AuthStep::Verify => reply is Response,
        AuthStep::Done => false,
    }
}

/// The error of a step that went wrong.
pub open spec fn auth_error(server: Version, step: AuthStep, reply: AuthReply) -> Option<ClientError> {
    match reply {
        AuthReply::Finished(Err(err)) => Some(ClientError::Io(err)),
        AuthReply::Version(Err(err)) => Some(ClientError::Io(err)),
        AuthReply::Challenge(Err(err)) => Some(ClientError::Rand(err)),
        AuthReply::Response(Err(err)) => Some(ClientError::Io(err)),
        AuthReply::Version(Ok(client)) if client != server => Some(
            ClientError::Version { server, client },
        ),
        AuthReply::Finished(Ok(_)) if step == (AuthStep::SendStatus {
            status: AuthStatus::Failed,
        }) => Some(ClientError::Auth),
        _ => None,
    }
}

/// The step after one that went well.
pub open spec fn auth_next(step: AuthStep, reply: AuthReply) -> AuthStep {
    match (step, reply) {
        (AuthStep::Encrypt, _) => AuthStep::SendVersion,
        (AuthStep::SendVersion, _) => AuthStep::ReceiveVersion,
        (AuthStep::ReceiveVersion, _) => AuthStep::MakeChallenge,
        (AuthStep::MakeChallenge, _) => AuthStep::SendChallenge,
        (AuthStep::SendChallenge, _) => AuthStep::Verify,
        (AuthStep::Verify, AuthReply::Response(Ok(true))) => AuthStep::SendStatus {
            status: AuthStatus::Passed,
        },
        (AuthStep::Verify, _) => AuthStep::SendStatus { status: AuthStatus::Failed },
        _ => AuthStep::Done,
    }
}

/// The authentication of a client.
#[derive(Debug)]
pub struct Authentication {
    version: Version,
    step: AuthStep,
}

impl Authentication {
    /// The version of the server.
    pub closed spec fn version(&self) -> Version {
        self.version
    }

    /// What has to be done next.
    pub closed spec fn next(&self) -> AuthStep {
        self.step
    }

    pub fn new(version: Version) -> (authentication: Authentication)
        ensures
            authentication.version() == version,
            authentication.next() == AuthStep::Encrypt,
    {
        Authentication { version, step: AuthStep::Encrypt }
    }

    pub fn step(&self) -> (step: AuthStep)
        ensures
            step == self.next(),
    {
        self.step
    }

    /// Takes how the current step went, and goes on to the next one or turns the client away. A
    /// client with a wrong password is told so first.
    pub fn advance(&mut self, reply: AuthReply) -> (result: Result<AuthStep, ClientError>)
        requires
            answers(old(self).next(), reply),
        ensures
            final(self).version() == old(self).version(),
            match result {
                Ok(step) => auth_error(old(self).version(), old(self).next(), reply) is None && step
                    == auth_next(old(self).next(), reply) && final(self).next() == step,
                Err(error) => auth_error(old(self).version(), old(self).next(), reply) == Some(
                    error,
                ) && final(self).next() == old(self).next(),
            },
    {
        let next = match reply {
            AuthReply::Finished(finished) => {
                match finished {
                    Ok(_) => {},
                    Err(err) => {
                        return Err(ClientError::Io(err));
                    },
                }
                match self.step {
                    AuthStep::Encrypt => AuthStep::SendVersion,
                    AuthStep::SendVersion => AuthStep::ReceiveVersion,
                    AuthStep::SendChallenge => AuthStep::Verify,
                    AuthStep::SendStatus { status } => {
                        if status == AuthStatus::Failed {
                            return Err(ClientError::Auth);
                        }
                        AuthStep::Done
                    },
                    _ => AuthStep::Done,
                }
            },
            AuthReply::Version(version) => match version {
                Ok(client) => {
                    if client != self.version {
                        return Err(ClientError::Version { server: self.version, client });
                    }
                    AuthStep::MakeChallenge
                },
                Err(err) => {
                    return Err(ClientError::Io(err));
                },
            },
            AuthReply::Challenge(challenge) => match challenge {
                Ok(_) => AuthStep::SendChallenge,
                Err(err) => {
                    return Err(ClientError::Rand(err));
                },
            },
            AuthReply::Response(response) => match response {
                Ok(verified) => AuthStep::SendStatus {
                    status: if verified {
                        AuthStatus::Passed
                    } else {
                        AuthStatus::Failed
                    },
                },
                Err(err) => {
                    return Err(ClientError::Io(err));
                },
            },
        };
        self.step = next;
        Ok(next)
    }
}

/// What a client has shown at a step of its authentication.
pub open spec fn has_shown(step: AuthStep, version_matched: bool, verified: bool) -> bool {
    match step {
        AuthStep::Encrypt | AuthStep::SendVersion | AuthStep::ReceiveVersion => true,
        AuthStep::MakeChallenge | AuthStep::SendChallenge | AuthStep::Verify => version_matched,
        AuthStep::SendStatus { status } => version_matched && (status == AuthStatus::Passed
            ==> verified),
        AuthStep::Done => version_matched && verified,
    }
}

/// Nobody gets in without the right version and the right password: what a client has shown grows
/// only by a version that matches and a response that is right.
pub proof fn only_verified_clients_get_in(
    server: Version,
    step: AuthStep,
    reply: AuthReply,
    version_matched: bool,
    verified: bool,
)
    requires
        answers(step, reply),
        has_shown(step, version_matched, verified),
        auth_error(server, step, reply) is None,
    ensures
        has_shown(
            auth_next(step, reply),
            version_matched || reply == AuthReply::Version(Ok::<Version, IoError>(server)),
            verified || reply == AuthReply::Response(Ok::<bool, IoError>(true)),
        ),
{
}

/// When a client is asked for a sign of life, and how long it may take to answer. Points in time are
/// milliseconds since some start.
#[derive(Debug)]
pub struct Heartbeat {
    due: u64,
    awaited: Option<u64>,
    interval: u64,
    patience: u64,
}

/// The state of a [`Heartbeat`].
#[verifier::ext_equal]
pub struct HeartbeatView {
    /// When the client is to be asked, if nothing is written to it before.
    pub due: int,
    /// By when an answer must have come, where one is outstanding.
    pub awaited: Option<int>,
    /// How long nothing is written before the client is asked.
    pub interval: int,
    /// How long the client may take to answer.
    pub patience: int,
}

impl View for Heartbeat {
    type V = HeartbeatView;

    closed spec fn view(&self) -> HeartbeatView {
        HeartbeatView {
            due: self.due as int,
            awaited: match self.awaited {
                Some(by) => Some(by as int),
                None => None,
            },
            interval: self.interval as int,
            patience: self.patience as int,
        }
    }
}

impl HeartbeatView {
    /// Whether the client is to be asked: no answer is outstanding, and nothing was written for the
    /// whole interval.
    pub open spec fn asks(self, now: int) -> bool {
        self.awaited is None && self.due <= now
    }

    /// Whether an answer is outstanding and did not come in time.
    pub open spec fn is_overdue(self, now: int) -> bool {
        self.awaited matches Some(by) && by <= now
    }

    /// The state after an answer, whether it was asked for or not.
    pub open spec fn answered(self) -> HeartbeatView {
        HeartbeatView { awaited: None, ..self }
    }

    /// The state after an update was written: the client is asked an interval later at the earliest.
    pub open spec fn idle_from(self, now: int) -> HeartbeatView {
        HeartbeatView { due: now + self.interval, ..self }
    }

    /// The state after an answer became outstanding.
    pub open spec fn awaiting_from(self, now: int) -> HeartbeatView {
        HeartbeatView { awaited: Some(now + self.patience), ..self }
    }
}

/// What happened on the connection to a client.
#[derive(Debug)]
pub enum ClientEvent {
    /// The client answered, or reading from it failed, or its reader has gone.
    Pong(Option<Result<(), IoError>>),
    /// There is an update for the client, or nobody sends any more.
    Update(Option<Update>),
    /// Time has passed.
    Time,
}

/// What is to be done on the connection to a client.
#[derive(Debug)]
pub enum ClientAction {
    /// Wait for the next event.
    Wait,
    /// Write this update. [`Heartbeat::wrote_update`] follows.
    WriteUpdate(Update),
    /// Write a ping. [`Heartbeat::wrote_ping`] follows.
    WritePing,
    /// Close the connection.
    Close,
}

impl Heartbeat {
    /// A client that was not asked yet, and to which nothing was written since now.
    pub fn new(now: u64, interval: u64, patience: u64) -> (heartbeat: Heartbeat)
        requires
            now + interval <= u64::MAX,
        ensures
            heartbeat@ == (HeartbeatView {
                due: now + interval,
                awaited: None,
                interval: interval as int,
                patience: patience as int,
            }),
    {
        Heartbeat { due: now + interval, awaited: None, interval, patience }
    }

    /// Whether an answer is outstanding.
    pub fn is_waiting(&self) -> (waiting: bool)
        ensures
            waiting == (self@.awaited is Some),
    {
        self.awaited.is_some()
    }

    /// When something is to be done next, if nothing happens before: the client is to be asked, or
    /// its answer is overdue.
    pub fn deadline(&self) -> (time: u64)
        ensures
            time == match self@.awaited {
                Some(by) => by,
                None => self@.due,
            },
            forall|now: int|
                #![trigger self@.asks(now)]
                #![trigger self@.is_overdue(now)]
                (self@.asks(now) || self@.is_overdue(now)) <==> time <= now,
    {
        match self.awaited {
            Some(by) => by,
            None => self.due,
        }
    }

    /// Takes an event. Updates are written whether an answer is outstanding or not. An answer that
    /// was not asked for is ignored.
    pub fn on_event(&mut self, event: ClientEvent, now: u64) -> (action: Result<
        ClientAction,
        ClientError,
    >)
        requires
            event is Time ==> now + old(self)@.interval <= u64::MAX,
            event is Time ==> now + old(self)@.patience <= u64::MAX,
        ensures
            match (event, action) {
                (ClientEvent::Pong(Some(Ok(_))), Ok(ClientAction::Wait)) => {
                    final(self)@ == old(self)@.answered()
                },
                (ClientEvent::Pong(Some(Err(err))), Err(error)) => {
                    &&& error == ClientError::Io(err)
                    &&& final(self)@ == old(self)@
                },
                (ClientEvent::Pong(None), Err(error)) => {
                    &&& is_broken(error, ErrorKind::BrokenPipe, "Pong reader closed"@)
                    &&& final(self)@ == old(self)@
                },
                (ClientEvent::Update(Some(update)), Ok(ClientAction::WriteUpdate(written))) => {
                    &&& written == update
                    &&& final(self)@ == old(self)@
                },
                (ClientEvent::Update(None), Ok(ClientAction::Close)) => final(self)@ == old(self)@,
                (ClientEvent::Time, Err(error)) => {
                    &&& old(self)@.is_overdue(now as int)
                    &&& is_broken(error, ErrorKind::TimedOut, "Pong timed out"@)
                    &&& final(self)@ == old(self)@
                },
                (ClientEvent::Time, Ok(ClientAction::WritePing)) => {
                    &&& old(self)@.asks(now as int)
                    &&& final(self)@ == old(self)@.idle_from(now as int).awaiting_from(now as int)
                },
                (ClientEvent::Time, Ok(ClientAction::Wait)) => {
                    &&& !old(self)@.is_overdue(now as int)
                    &&& !old(self)@.asks(now as int)
                    &&& final(self)@ == old(self)@
                },
                _ => false,
            },
            happening_of(event) matches Some(happening) ==> (!(happening is Update) && action is Ok)
                ==> {
                let moment = Moment { happening, at: now as int, done: now as int };
                &&& final(self)@ == old(self)@.after(moment)
                &&& old(self)@.writes(moment).len() == if action matches Ok(
                    ClientAction::WritePing,
                ) {
                    1
                } else {
                    0int
                }
            },
            event is Pong && action is Ok ==> final(self)@.awaited is None && final(self)@.due
                == old(self)@.due,
    {
        match event {
            ClientEvent::Pong(Some(Ok(_))) => {
                self.awaited = None;
                Ok(ClientAction::Wait)
            },
            ClientEvent::Pong(Some(Err(err))) => Err(ClientError::Io(err)),
            ClientEvent::Pong(None) => Err(
                ClientError::Io(IoError::new(ErrorKind::BrokenPipe, "Pong reader closed")),
            ),
            ClientEvent::Update(Some(update)) => Ok(ClientAction::WriteUpdate(update)),
            ClientEvent::Update(None) => Ok(ClientAction::Close),
            ClientEvent::Time => match self.awaited {
                Some(by) => {
                    if by <= now {
                        return Err(
                            ClientError::Io(IoError::new(ErrorKind::TimedOut, "Pong timed out")),
                        );
                    }
                    Ok(ClientAction::Wait)
                },
                None => {
                    if now < self.due {
                        return Ok(ClientAction::Wait);
                    }
                    self.due = now + self.interval;
                    self.awaited = Some(now + self.patience);
                    Ok(ClientAction::WritePing)
                },
            },
        }
    }

    /// Takes note that an update is written. That puts off the next ping.
    pub fn wrote_update(&mut self, now: u64)
        requires
            now + old(self)@.interval <= u64::MAX,
        ensures
            final(self)@ == old(self)@.idle_from(now as int),
            forall|update: UpdateView, at: int|
                final(self)@ == #[trigger] old(self)@.after(
                    Moment { happening: Happening::Update(update), at, done: now as int },
                ),
    {
        self.due = now + self.interval;
    }

    /// Takes note that a ping is written. The time for its answer starts now.
    pub fn wrote_ping(&mut self, now: u64)
        requires
            now + old(self)@.patience <= u64::MAX,
        ensures
            final(self)@ == old(self)@.awaiting_from(now as int),
    {
        self.awaited = Some(now + self.patience);
    }
}

/// What an event means for a connection that lasts.
pub open spec fn happening_of(event: ClientEvent) -> Option<Happening> {
    match event {
        ClientEvent::Pong(Some(Ok(_))) => Some(Happening::Pong),
        ClientEvent::Update(Some(update)) => Some(Happening::Update(update@)),
        ClientEvent::Time => Some(Happening::Time),
        _ => None,
    }
}

/// What happens on a connection that lasts.
#[verifier::ext_equal]
pub enum Happening {
    /// The client answers.
    Pong,
    /// There is an update for the client.
    Update(UpdateView),
    /// Time has passed.
    Time,
}

/// Something that happens, and when what it calls for is written.
#[verifier::ext_equal]
pub struct Moment {
    pub happening: Happening,
    pub at: int,
    pub done: int,
}

/// Something that is written to a client: an update, or a ping.
#[verifier::ext_equal]
pub struct Written {
    pub update: Option<UpdateView>,
    pub at: int,
    pub done: int,
}

impl HeartbeatView {
    /// The state after a moment.
    pub open spec fn after(self, moment: Moment) -> HeartbeatView {
        match moment.happening {
            Happening::Pong => self.answered(),
            Happening::Update(_) => self.idle_from(moment.done),
            Happening::Time => if self.asks(moment.at) {
                self.idle_from(moment.at).awaiting_from(moment.done)
            } else {
                self
            },
        }
    }

    /// What a moment has written.
    pub open spec fn writes(self, moment: Moment) -> Seq<Written> {
        match moment.happening {
            Happening::Pong => seq![],
            Happening::Update(update) => seq![
                Written { update: Some(update), at: moment.at, done: moment.done },
            ],
            Happening::Time => if self.asks(moment.at) {
                seq![Written { update: None, at: moment.at, done: moment.done }]
            } else {
                seq![]
            },
        }
    }

    /// The state after some moments.
    pub open spec fn after_all(self, moments: Seq<Moment>) -> HeartbeatView
        decreases moments.len(),
    {
        if moments.len() == 0 {
            self
        } else {
            self.after_all(moments.drop_last()).after(moments.last())
        }
    }

    /// What is written in some moments.
    pub open spec fn written(self, moments: Seq<Moment>) -> Seq<Written>
        decreases moments.len(),
    {
        if moments.len() == 0 {
            seq![]
        } else {
            let before = moments.drop_last();
            self.written(before) + self.after_all(before).writes(moments.last())
        }
    }
}

/// Whether moments come one after the other.
pub open spec fn in_time(moments: Seq<Moment>) -> bool {
    &&& forall|at: int| 0 <= at < moments.len() ==> (#[trigger] moments[at]).at <= moments[at].done
    &&& forall|left: int, right: int|
        0 <= left < right < moments.len() ==> (#[trigger] moments[left]).done <= (
        #[trigger] moments[right]).at
}

/// The updates that come in some moments.
pub open spec fn updates_in(moments: Seq<Moment>) -> Seq<UpdateView>
    decreases moments.len(),
{
    if moments.len() == 0 {
        seq![]
    } else {
        let before = updates_in(moments.drop_last());
        match moments.last().happening {
            Happening::Update(update) => before.push(update),
            _ => before,
        }
    }
}

/// The updates among what is written.
pub open spec fn updates_of(written: Seq<Written>) -> Seq<UpdateView>
    decreases written.len(),
{
    if written.len() == 0 {
        seq![]
    } else {
        let before = updates_of(written.drop_last());
        match written.last().update {
            Some(update) => before.push(update),
            None => before,
        }
    }
}

/// All updates are written, in the order in which they come, whether an answer is outstanding or not.
pub proof fn updates_are_written_in_order(heartbeat: HeartbeatView, moments: Seq<Moment>)
    ensures
        updates_of(heartbeat.written(moments)) == updates_in(moments),
    decreases moments.len(),
{
    if moments.len() > 0 {
        let before = moments.drop_last();
        let first = heartbeat.written(before);
        let more = heartbeat.after_all(before).writes(moments.last());
        updates_are_written_in_order(heartbeat, before);
        if more.len() == 0 {
            assert(first + more =~= first);
        } else {
            assert((first + more).drop_last() =~= first);
            assert((first + more).last() == more[0]);
        }
    }
}

proof fn lemma_kept_times(heartbeat: HeartbeatView, moments: Seq<Moment>)
    ensures
        heartbeat.after_all(moments).interval == heartbeat.interval,
        heartbeat.after_all(moments).patience == heartbeat.patience,
    decreases moments.len(),
{
    if moments.len() > 0 {
        lemma_kept_times(heartbeat, moments.drop_last());
    }
}

/// What is written comes from one of the moments.
proof fn lemma_written_when(heartbeat: HeartbeatView, moments: Seq<Moment>)
    ensures
        forall|to: int|
            0 <= to < heartbeat.written(moments).len() ==> exists|at: int|
                0 <= at < moments.len() && (#[trigger] moments[at]).at == (
                #[trigger] heartbeat.written(moments)[to]).at && moments[at].done
                    == heartbeat.written(moments)[to].done,
    decreases moments.len(),
{
    if moments.len() > 0 {
        let before = moments.drop_last();
        let first = heartbeat.written(before);
        let all = heartbeat.written(moments);
        lemma_written_when(heartbeat, before);
        assert forall|to: int| 0 <= to < all.len() implies exists|at: int|
            0 <= at < moments.len() && (#[trigger] moments[at]).at == (#[trigger] all[to]).at
                && moments[at].done == all[to].done by {
            if to < first.len() {
                assert(all[to] == first[to]);
                let at = choose|at: int|
                    0 <= at < before.len() && (#[trigger] before[at]).at == first[to].at
                        && before[at].done == first[to].done;
                assert(moments[at] == before[at]);
            } else {
                assert(moments[moments.len() - 1].at == all[to].at);
            }
        }
    }
}

proof fn lemma_in_time(moments: Seq<Moment>)
    requires
        in_time(moments),
        moments.len() > 0,
    ensures
        in_time(moments.drop_last()),
{
    let before = moments.drop_last();
    assert forall|at: int| 0 <= at < before.len() implies (#[trigger] before[at]).at
        <= before[at].done by {
        assert(before[at] == moments[at]);
    }
    assert forall|left: int, right: int| 0 <= left < right < before.len() implies (
    #[trigger] before[left]).done <= (#[trigger] before[right]).at by {
        assert(before[left] == moments[left] && before[right] == moments[right]);
    }
}

/// The next ping is due an interval after whatever was written.
proof fn lemma_due_after_all(heartbeat: HeartbeatView, moments: Seq<Moment>)
    requires
        in_time(moments),
        heartbeat.interval >= 0,
    ensures
        forall|to: int|
            0 <= to < heartbeat.written(moments).len() ==> heartbeat.after_all(moments).due
                >= heartbeat.interval + (if (
            #[trigger] heartbeat.written(moments)[to]).update is Some {
                heartbeat.written(moments)[to].done
            } else {
                heartbeat.written(moments)[to].at
            }),
    decreases moments.len(),
{
    if moments.len() > 0 {
        let before = moments.drop_last();
        let last = moments.last();
        let first = heartbeat.written(before);
        let all = heartbeat.written(moments);
        let after = heartbeat.after_all(moments);
        lemma_in_time(moments);
        lemma_due_after_all(heartbeat, before);
        lemma_kept_times(heartbeat, before);
        lemma_written_when(heartbeat, before);
        assert(last.at <= last.done) by {
            assert(moments[moments.len() - 1].at <= moments[moments.len() - 1].done);
        }
        assert forall|to: int| 0 <= to < all.len() implies after.due >= heartbeat.interval + (if (
        #[trigger] all[to]).update is Some {
            all[to].done
        } else {
            all[to].at
        }) by {
            if to < first.len() {
                assert(all[to] == first[to]);
                let at = choose|at: int|
                    0 <= at < before.len() && (#[trigger] before[at]).at == first[to].at
                        && before[at].done == first[to].done;
                assert(moments[at] == before[at]);
                assert(moments[at].at <= moments[at].done);
                assert(moments[at].done <= moments[moments.len() - 1].at);
            }
        }
    }
}

/// A ping is written only after an interval in which nothing was: no ping comes within the interval
/// after an update was written, nor within the interval after another ping.
pub proof fn pings_wait_for_silence(
    heartbeat: HeartbeatView,
    moments: Seq<Moment>,
    earlier: int,
    ping: int,
)
    requires
        in_time(moments),
        heartbeat.interval >= 0,
        0 <= earlier < ping < heartbeat.written(moments).len(),
        heartbeat.written(moments)[ping].update is None,
    ensures
        ({
            let written = heartbeat.written(moments);
            written[ping].at >= heartbeat.interval + (if written[earlier].update is Some {
                written[earlier].done
            } else {
                written[earlier].at
            })
        }),
    decreases moments.len(),
{
    if moments.len() > 0 {
        let before = moments.drop_last();
        let first = heartbeat.written(before);
        let all = heartbeat.written(moments);
        lemma_in_time(moments);
        assert(all[earlier] == first[earlier]);
        if ping < first.len() {
            assert(all[ping] == first[ping]);
            pings_wait_for_silence(heartbeat, before, earlier, ping);
        } else {
            lemma_due_after_all(heartbeat, before);
            assert(first[earlier] == all[earlier]);
        }
    }
}

/// While no answer comes, an outstanding answer stays due at the same time, and no ping is written.
pub proof fn unanswered_clients_are_not_asked_again(
    heartbeat: HeartbeatView,
    moments: Seq<Moment>,
    to: int,
)
    requires
        heartbeat.awaited is Some,
        forall|at: int| 0 <= at < moments.len() ==> !((#[trigger] moments[at]).happening is Pong),
    ensures
        heartbeat.after_all(moments).awaited == heartbeat.awaited,
        0 <= to < heartbeat.written(moments).len() ==> heartbeat.written(moments)[to].update is Some,
    decreases moments.len(),
{
    if moments.len() > 0 {
        let before = moments.drop_last();
        assert forall|at: int| 0 <= at < before.len() implies !((
        #[trigger] before[at]).happening is Pong) by {
            assert(before[at] == moments[at]);
        }
        assert(!(moments[moments.len() - 1].happening is Pong));
        unanswered_clients_are_not_asked_again(heartbeat, before, to);
        let first = heartbeat.written(before);
        if to < first.len() {
            assert(0 <= to ==> heartbeat.written(moments)[to] == first[to]);
        }
    }
}

/// A client that does not answer a ping is given up exactly when the time for it is over, however
/// many updates are written meanwhile.
pub proof fn silent_clients_are_given_up(
    heartbeat: HeartbeatView,
    ping: Moment,
    moments: Seq<Moment>,
    now: int,
)
    requires
        ping.happening is Time,
        heartbeat.asks(ping.at),
        forall|at: int| 0 <= at < moments.len() ==> !((#[trigger] moments[at]).happening is Pong),
    ensures
        heartbeat.after(ping).after_all(moments).is_overdue(now) <==> ping.done + heartbeat.patience
            <= now,
{
    unanswered_clients_are_not_asked_again(heartbeat.after(ping), moments, 0);
}

/// Whether a client error is a new one with this kind and text.
pub open spec fn is_broken(error: ClientError, kind: ErrorKind, message: Seq<char>) -> bool {
    error matches ClientError::Io(err) && crate::claim::is_plain(err, kind, message)
}

/// The task of a device: whether it reads frames, or waits to be reset because events were lost.
#[derive(Debug)]
pub struct DeviceTask {
    waiting_for_reset: bool,
}

impl DeviceTask {
    /// Whether the task waits to be reset. It then reads no frames.
    pub closed spec fn resetting(&self) -> bool {
        self.waiting_for_reset
    }

    pub fn new() -> (task: DeviceTask)
        ensures
            !task.resetting(),
    {
        DeviceTask { waiting_for_reset: false }
    }

    pub fn reads_frames(&self) -> (reads: bool)
        ensures
            reads == !self.resetting(),
    {
        !self.waiting_for_reset
    }

    /// Takes what was read and whether it could be passed on. Tells whether the task goes on. After
    /// lost events it waits to be reset.
    pub fn on_frame(&mut self, input_lost: bool, failed: bool, passed_on: bool) -> (goes_on: bool)
        requires
            !old(self).resetting(),
        ensures
            goes_on == (passed_on && !failed),
            final(self).resetting() == (goes_on && input_lost),
    {
        if !passed_on || failed {
            return false;
        }
        if input_lost {
            self.waiting_for_reset = true;
        }
        true
    }

    /// Takes a command, until there are no more, and whether it could be carried out. Tells whether
    /// the task goes on. A reset ends the waiting for it. Commands before it are carried out.
    pub fn on_command(&mut self, command: Option<&DeviceCommand>, carried_out: bool) -> (goes_on:
        bool)
        ensures
            goes_on == (command is Some && carried_out),
            final(self).resetting() == (old(self).resetting() && !(goes_on && command matches Some(
                DeviceCommand::Reset,
            ))),
    {
        match command {
            Some(command) => {
                if !carried_out {
                    return false;
                }
                if let DeviceCommand::Reset = command {
                    self.waiting_for_reset = false;
                }
                true
            },
            None => false,
        }
    }
}

} // verus!
