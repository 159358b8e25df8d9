//! Queues to other tasks, and a record of what was handed to them.

use tokio::sync::mpsc::error::TrySendError;
use tokio::sync::mpsc::Sender;
use vstd::prelude::*;

use crate::update::{CommandView, DeviceCommand, Update, UpdateView};

verus! {

/// The sending half of a bounded queue (`tokio::sync::mpsc::Sender`).
#[verifier::external_type_specification]
#[verifier::external_body]
#[verifier::reject_recursive_types(T)]
pub struct ExSender<T>(tokio::sync::mpsc::Sender<T>);

/// What became of a message.
#[derive(Clone, Copy, Debug, PartialEq, Eq, Structural)]
pub enum SendOutcome {
    /// It is in the queue.
    Sent,
    /// The queue is full.
    Full,
    /// Nobody receives from the queue any more.
    Closed,
}

/// A message that was handed to a queue, or a look at a queue, with its outcome and the number of
/// the client or device that the queue leads to.
#[verifier::ext_equal]
pub enum Delivery {
    Update { client: usize, queue: Sender<Update>, update: UpdateView, outcome: SendOutcome },
    Command {
        device: usize,
        task: Sender<DeviceCommand>,
        command: CommandView,
        outcome: SendOutcome,
    },
    Probe { client: usize, queue: Sender<Update>, closed: bool },
}

/// The deliveries that were made so far: queues are reached through it alone. It takes no room in
/// the program.
pub struct Outbox {
    log: Ghost<Seq<Delivery>>,
}

impl View for Outbox {
    type V = Seq<Delivery>;

    closed spec fn view(&self) -> Seq<Delivery> {
        self.log@
    }
}

impl Outbox {
    pub fn new() -> (outbox: Outbox)
        ensures
            outbox@ == Seq::<Delivery>::empty(),
    {
        Outbox { log: Ghost(Seq::empty()) }
    }

    /// `Sender::try_send`: puts an update into a queue, unless it is full or closed. The record has
    /// the queue, the update and the outcome. Which outcome it is depends on the receiver at the
    /// moment of the call, so nothing more is claimed of it.
    #[allow(unused_variables)]
    #[verifier::external_body]
    pub(crate) fn send_update(
        &mut self,
        queue: &Sender<Update>,
        client: usize,
        update: Update,
    ) -> (outcome: SendOutcome)
        ensures
            final(self)@ == old(self)@.push(
                Delivery::Update { client, queue: *queue, update: update@, outcome },
            ),
    {
        match queue.try_send(update) {
            Ok(()) => SendOutcome::Sent,
            Err(TrySendError::Full(_)) => SendOutcome::Full,
            Err(TrySendError::Closed(_)) => SendOutcome::Closed,
        }
    }

    /// `Sender::try_send`: puts a command into a queue, unless it is full or closed. The record has
    /// the queue, the command and the outcome. Which outcome it is depends on the receiver at the
    /// moment of the call, so nothing more is claimed of it.
    #[allow(unused_variables)]
    #[verifier::external_body]
    pub(crate) fn send_command(
        &mut self,
        queue: &Sender<DeviceCommand>,
        device: usize,
        command: DeviceCommand,
    ) -> (outcome: SendOutcome)
        ensures
            final(self)@ == old(self)@.push(
                Delivery::Command { device, task: *queue, command: command@, outcome },
            ),
    {
        match queue.try_send(command) {
            Ok(()) => SendOutcome::Sent,
            Err(TrySendError::Full(_)) => SendOutcome::Full,
            Err(TrySendError::Closed(_)) => SendOutcome::Closed,
        }
    }

    /// `Sender::is_closed`: looks whether nobody receives from a queue any more. The record has the
    /// queue and the answer. Which it is depends on the receiver at the moment of the call, so
    /// nothing more is claimed of it.
    #[allow(unused_variables)]
    #[verifier::external_body]
    pub(crate) fn probe(&mut self, queue: &Sender<Update>, client: usize) -> (closed: bool)
        ensures
            final(self)@ == old(self)@.push(Delivery::Probe { client, queue: *queue, closed }),
    {
        queue.is_closed()
    }
}

} // verus!
