//! The server: the devices of this machine, the clients, and what is sent to them.
//!
//! What becomes of a message depends on who receives it. So every contract here speaks of the
//! deliveries that were made, each with its outcome, and says what follows from them.

use slab::Slab;
use tokio::sync::mpsc::Sender;
use vstd::prelude::*;

use crate::axes::{AbsMap, RelSet};
use crate::channel::{Delivery, Outbox, SendOutcome};
use crate::interceptor::{copy_bytes, Interceptor};
use crate::io_error::{is_device_disconnect, IoError};
use crate::key::Key;
use crate::keyset::KeySet;
use crate::monitor::{ActivationId, ReleaseCause};
use crate::event::Event;
use crate::routing::{Action, ActionView, ReconcileMode, Route, Router, RouterView, SwitchBinding};
use crate::slots::{
    client_keys, device_ids, get_client, get_device, insert_client, insert_device, no_clients,
    no_devices, remove_device, take_client, vacant_device, Client,
};
use crate::update::{CommandView, DeviceCommand, Update, UpdateView};

verus! {

/// The number of updates that may wait for a client, where the configuration does not say.
pub const DEFAULT_CLIENT_QUEUE_SIZE: usize = 256;

/// Why the server stopped.
#[derive(Debug)]
pub enum Error {
    Network(IoError),
    Input(IoError),
    /// A device of this machine does not keep up with its commands.
    Overflow,
}

impl Error {
    /// The text of the error.
    pub open spec fn text(self) -> Seq<char> {
        match self {
            Error::Network(err) => "Network error: "@ + err.message@,
            Error::Input(err) => "Input error: "@ + err.message@,
            Error::Overflow => "Event queue overflow"@,
        }
    }

    pub fn message(&self) -> (text: String)
        ensures
            text@ == self.text(),
    {
        let (start, cause) = match self {
            Error::Network(err) => ("Network error: ", Some(err)),
            Error::Input(err) => ("Input error: ", Some(err)),
            Error::Overflow => ("Event queue overflow", None),
        };
        let mut text = String::new();
        text.append(start);
        proof {
            assert(text@ =~= start@);
        }
        if let Some(err) = cause {
            text.append(err.message.as_str());
        }
        text
    }
}

/// A device of this machine.
pub struct Device {
    pub activation_id: ActivationId,
    pub name: Vec<u8>,
    pub vendor: u16,
    pub product: u16,
    pub version: u16,
    pub rel: RelSet,
    pub abs: AbsMap,
    pub keys: KeySet,
    pub delay: Option<i32>,
    pub period: Option<i32>,
    pub sender: Sender<DeviceCommand>,
}

/// The update that makes a device known to a client.
pub open spec fn creation(id: usize, device: Device) -> UpdateView {
    UpdateView::CreateDevice {
        id,
        name: device.name@,
        version: device.version,
        vendor: device.vendor,
        product: device.product,
        rel: device.rel@,
        abs: device.abs@,
        keys: device.keys@,
        delay: device.delay,
        period: device.period,
    }
}

impl Device {
    /// A device that was taken over, with the queue of the commands to it.
    pub fn new(
        activation_id: ActivationId,
        interceptor: &Interceptor,
        sender: Sender<DeviceCommand>,
    ) -> (device: Device)
        ensures
            device.activation_id == activation_id,
            (device.name@, device.vendor, device.product, device.version)
                == interceptor.identity(),
            device.rel@ == crate::interceptor::axes_named(
                interceptor.raw_capabilities().rel@,
            ).to_set(),
            device.abs@ == crate::axes::ranges_of(
                crate::interceptor::ranges_named(interceptor.raw_capabilities().abs@),
            ),
            device.keys@ == crate::interceptor::keys_named(
                interceptor.raw_capabilities().key@,
            ).to_set(),
            device.delay == interceptor.raw_capabilities().repeat.delay,
            device.period == interceptor.raw_capabilities().repeat.period,
            device.sender == sender,
    {
        let repeat = interceptor.repeat();
        Device {
            activation_id,
            name: copy_bytes(interceptor.name()),
            vendor: interceptor.vendor(),
            product: interceptor.product(),
            version: interceptor.version(),
            rel: RelSet::from_vec(interceptor.rel()),
            abs: AbsMap::from_vec(interceptor.abs()),
            keys: KeySet::from_vec(interceptor.key()),
            delay: repeat.delay,
            period: repeat.period,
            sender,
        }
    }
}

/// The update that makes a device known to a client.
pub fn create_device_update(id: usize, device: &Device) -> (update: Update)
    ensures
        update@ == creation(id, *device),
{
    Update::CreateDevice {
        id,
        name: copy_bytes(&device.name),
        version: device.version,
        vendor: device.vendor,
        product: device.product,
        rel: device.rel.clone(),
        abs: device.abs.clone(),
        keys: device.keys.clone(),
        delay: device.delay,
        period: device.period,
    }
}

/// Whether an event of a device's task is from the takeover that the device now stands for.
pub fn is_current_device_event(
    devices: &Slab<Device>,
    id: usize,
    activation_id: ActivationId,
) -> (current: bool)
    ensures
        current == (crate::slots::device_slots(*devices).contains_key(id)
            && crate::slots::device_slots(*devices)[id].activation_id == activation_id),
{
    match get_device(devices, id) {
        Some(device) => device.activation_id == activation_id,
        None => false,
    }
}

/// The routes to this machine and to some clients.
pub open spec fn routes_of(clients: Map<usize, Client>) -> Seq<Route> {
    seq![0usize] + crate::devices::in_order(clients.dom()).map_values(
        |key: usize| (key + 1) as usize,
    )
}

/// The routes to this machine and to all clients, in ascending order.
pub fn available_routes(clients: &Slab<Client>) -> (routes: Vec<Route>)
    ensures
        routes@ == routes_of(crate::slots::client_slots(*clients)),
        crate::devices::ascending(routes@),
        routes@.contains(0),
{
    let keys = client_keys(clients);
    proof {
        crate::devices::lemma_ascending_is_unique(
            keys@,
            crate::devices::in_order(crate::slots::client_slots(*clients).dom()),
        );
    }
    let mut routes: Vec<Route> = Vec::new();
    routes.push(0);
    let ghost target = routes_of(crate::slots::client_slots(*clients));
    let mut index: usize = 0;
    proof {
        assert(routes@ =~= target.take(1));
    }
    while index < keys.len()
        invariant
            index <= keys@.len(),
            target == seq![0usize] + keys@.map_values(|key: usize| (key + 1) as usize),
            forall|at: int| 0 <= at < keys@.len() ==> #[trigger] keys@[at] < usize::MAX,
            routes@ == target.take(index + 1),
        decreases keys@.len() - index,
    {
        assert(keys@[index as int] < usize::MAX);
        routes.push(keys[index] + 1);
        index = index + 1;
        proof {
            assert(routes@ =~= target.take(index + 1));
        }
    }
    proof {
        assert(target.take(index + 1) =~= target);
        assert(routes@[0] == 0);
        assert forall|left: int, right: int| 0 <= left < right < routes@.len() implies routes@[left]
            < routes@[right] by {
            assert(routes@[right] == keys@[right - 1] + 1);
            if left > 0 {
                assert(keys@[left - 1] < keys@[right - 1]);
                assert(routes@[left] == keys@[left - 1] + 1);
            }
        }
    }
    routes
}

/// A message that is to be sent.
#[verifier::ext_equal]
pub enum Message {
    Update { client: usize, update: UpdateView },
    Command { device: usize, command: CommandView },
}

/// The deliveries that were made between two moments.
pub open spec fn added(before: Seq<Delivery>, after: Seq<Delivery>) -> Seq<Delivery> {
    after.skip(before.len() as int)
}

/// The client that is lost with a delivery: one whose queue is full or closed.
pub open spec fn lost_client(delivery: Delivery) -> Option<usize> {
    match delivery {
        Delivery::Update { client, outcome, .. } => if outcome == SendOutcome::Sent {
            None
        } else {
            Some(client)
        },
        Delivery::Probe { client, closed: true, .. } => Some(client),
        _ => None,
    }
}

/// The clients that are left after some deliveries.
pub open spec fn clients_after(
    clients: Map<usize, Client>,
    log: Seq<Delivery>,
) -> Map<usize, Client>
    decreases log.len(),
{
    if log.len() == 0 {
        clients
    } else {
        let before = clients_after(clients, log.drop_last());
        match lost_client(log.last()) {
            Some(client) => before.remove(client),
            None => before,
        }
    }
}

/// Whether a delivery is that of a message: it went to the queue of the client or device that the
/// message is for.
pub open spec fn carries(
    devices: Map<usize, Device>,
    clients: Map<usize, Client>,
    delivery: Delivery,
    message: Message,
) -> bool {
    match (delivery, message) {
        (
            Delivery::Update { client, queue, update, .. },
            Message::Update { client: to, update: planned },
        ) => client == to && clients.contains_key(client) && queue == clients[client].0 && update
            == planned,
        (
            Delivery::Command { device, task, command, .. },
            Message::Command { device: to, command: planned },
        ) => device == to && devices.contains_key(device) && task == devices[device].sender
            && command == planned,
        _ => false,
    }
}

/// Whether there is somebody to receive a message.
pub open spec fn is_deliverable(
    devices: Map<usize, Device>,
    clients: Map<usize, Client>,
    message: Message,
) -> bool {
    match message {
        Message::Update { client, .. } => clients.contains_key(client),
        Message::Command { device, .. } => devices.contains_key(device),
    }
}

/// Whether deliveries are those of a list of messages: each message in turn is delivered once, where
/// at that moment there is somebody to receive it, and nothing else is.
pub open spec fn follows(
    devices: Map<usize, Device>,
    clients: Map<usize, Client>,
    plan: Seq<Message>,
    log: Seq<Delivery>,
) -> bool
    decreases plan.len(),
{
    if plan.len() == 0 {
        log.len() == 0
    } else {
        ||| log.len() > 0 && carries(
            devices,
            clients_after(clients, log.drop_last()),
            log.last(),
            plan.last(),
        ) && follows(devices, clients, plan.drop_last(), log.drop_last())
        ||| !is_deliverable(devices, clients_after(clients, log), plan.last()) && follows(
            devices,
            clients,
            plan.drop_last(),
            log,
        )
    }
}

/// Whether a delivery found the queue of a device of this machine full.
pub open spec fn overflows(delivery: Delivery) -> bool {
    delivery matches Delivery::Command { outcome: SendOutcome::Full, .. }
}

/// Whether deliveries are those of dispatching a list of messages. It goes well to the end, or ends
/// with the first command that finds its queue full.
pub open spec fn dispatched(
    devices: Map<usize, Device>,
    clients: Map<usize, Client>,
    plan: Seq<Message>,
    log: Seq<Delivery>,
    complete: bool,
) -> bool {
    if complete {
        follows(devices, clients, plan, log) && forall|at: int|
            0 <= at < log.len() ==> !overflows(#[trigger] log[at])
    } else {
        &&& log.len() > 0 && overflows(log.last())
        &&& forall|at: int| 0 <= at < log.len() - 1 ==> !overflows(#[trigger] log[at])
        &&& exists|count: int|
            0 < count <= plan.len() && carries(
                devices,
                clients_after(clients, log.drop_last()),
                log.last(),
                plan[count - 1],
            ) && #[trigger] follows(devices, clients, plan.take(count), log)
    }
}

/// The message of an action of the router: a command where it is for this machine, else an update
/// for the client of the route.
pub open spec fn message_of(action: ActionView) -> Message {
    match action {
        ActionView::Events { route, device_id, events } => if route == 0 {
            Message::Command { device: device_id, command: CommandView::Events(events) }
        } else {
            Message::Update {
                client: (route - 1) as usize,
                update: UpdateView::Events { id: device_id, events },
            }
        },
        ActionView::SetKeyState { route, device_id, pressed_keys } => if route == 0 {
            Message::Command { device: device_id, command: CommandView::SetKeyState(pressed_keys) }
        } else {
            Message::Update {
                client: (route - 1) as usize,
                update: UpdateView::SetKeyState { id: device_id, pressed_keys },
            }
        },
    }
}

/// The messages of some actions of the router.
pub open spec fn messages_of(actions: Seq<ActionView>) -> Seq<Message> {
    actions.map_values(|action: ActionView| message_of(action))
}

/// Drops a client, where it is still there.
fn remove_client(clients: &mut Slab<Client>, key: usize)
    ensures
        crate::slots::client_slots(*final(clients)) == crate::slots::client_slots(
            *old(clients),
        ).remove(key),
{
    take_client(clients, key);
}

/// Takes the outcome of an update to a client. A client whose queue is full or closed is dropped.
pub fn settle_update(clients: &mut Slab<Client>, key: usize, outcome: SendOutcome) -> (sent: bool)
    ensures
        sent == (outcome == SendOutcome::Sent),
        crate::slots::client_slots(*final(clients)) == if outcome == SendOutcome::Sent {
            crate::slots::client_slots(*old(clients))
        } else {
            crate::slots::client_slots(*old(clients)).remove(key)
        },
{
    match outcome {
        SendOutcome::Sent => true,
        SendOutcome::Full | SendOutcome::Closed => {
            remove_client(clients, key);
            false
        },
    }
}

/// Sends an update to a client, where it is still there. A client whose queue is full or closed is
/// dropped.
pub fn try_send_update(
    clients: &mut Slab<Client>,
    key: usize,
    update: Update,
    outbox: &mut Outbox,
) -> (sent: bool)
    ensures
        old(outbox)@.is_prefix_of(final(outbox)@),
        ({
            let before = crate::slots::client_slots(*old(clients));
            let log = added(old(outbox)@, final(outbox)@);
            &&& crate::slots::client_slots(*final(clients)) == clients_after(before, log)
            &&& forall|devices: Map<usize, Device>| #[trigger]
                follows(
                    devices,
                    before,
                    seq![Message::Update { client: key, update: update@ }],
                    log,
                )
            &&& sent == crate::slots::client_slots(*final(clients)).contains_key(key)
        }),
{
    let ghost before = crate::slots::client_slots(*clients);
    let ghost start = outbox@;
    let ghost planned = update@;
    let ghost plan = seq![Message::Update { client: key, update: planned }];
    proof {
        assert(plan.drop_last() =~= Seq::<Message>::empty());
        assert(plan.last() == Message::Update { client: key, update: planned });
    }
    let outcome = match get_client(clients, key) {
        Some((queue, _)) => outbox.send_update(queue, key, update),
        None => {
            proof {
                let log = added(start, outbox@);
                assert(log =~= Seq::<Delivery>::empty());
                assert forall|devices: Map<usize, Device>| #[trigger]
                    follows(devices, before, plan, log) by {
                    assert(follows(devices, before, plan.drop_last(), log));
                }
            }
            return false;
        },
    };
    proof {
        let log = added(start, outbox@);
        let delivery = Delivery::Update {
            client: key,
            queue: before[key].0,
            update: planned,
            outcome,
        };
        assert(log =~= seq![delivery]);
        assert(log.drop_last() =~= Seq::<Delivery>::empty());
        assert(log.last() == delivery);
        assert(clients_after(before, log.drop_last()) == before);
        assert forall|devices: Map<usize, Device>| #[trigger] follows(devices, before, plan, log) by {
            assert(follows(devices, before, plan.drop_last(), log.drop_last()));
        }
    }
    settle_update(clients, key, outcome)
}

pub(crate) proof fn lemma_clients_after_concat(
    clients: Map<usize, Client>,
    first: Seq<Delivery>,
    second: Seq<Delivery>,
)
    ensures
        clients_after(clients, first + second) == clients_after(
            clients_after(clients, first),
            second,
        ),
    decreases second.len(),
{
    if second.len() == 0 {
        assert(first + second =~= first);
    } else {
        assert((first + second).drop_last() =~= first + second.drop_last());
        lemma_clients_after_concat(clients, first, second.drop_last());
    }
}

proof fn lemma_follows_concat(
    devices: Map<usize, Device>,
    clients: Map<usize, Client>,
    first_plan: Seq<Message>,
    first: Seq<Delivery>,
    second_plan: Seq<Message>,
    second: Seq<Delivery>,
)
    requires
        follows(devices, clients, first_plan, first),
        follows(devices, clients_after(clients, first), second_plan, second),
    ensures
        follows(devices, clients, first_plan + second_plan, first + second),
    decreases second_plan.len(),
{
    if second_plan.len() == 0 {
        assert(first_plan + second_plan =~= first_plan);
        assert(first + second =~= first);
    } else {
        let plan = first_plan + second_plan;
        let log = first + second;
        let middle = clients_after(clients, first);
        assert(plan.drop_last() =~= first_plan + second_plan.drop_last());
        assert(plan.last() == second_plan.last());
        lemma_clients_after_concat(clients, first, second);
        if second.len() > 0 {
            assert(log.drop_last() =~= first + second.drop_last());
            assert(log.last() == second.last());
            lemma_clients_after_concat(clients, first, second.drop_last());
        }
        if second.len() > 0 && carries(
            devices,
            clients_after(middle, second.drop_last()),
            second.last(),
            second_plan.last(),
        ) && follows(devices, middle, second_plan.drop_last(), second.drop_last()) {
            lemma_follows_concat(
                devices,
                clients,
                first_plan,
                first,
                second_plan.drop_last(),
                second.drop_last(),
            );
        } else {
            lemma_follows_concat(
                devices,
                clients,
                first_plan,
                first,
                second_plan.drop_last(),
                second,
            );
        }
    }
}

/// Updates do not depend on the devices of this machine.
proof fn lemma_updates_follow(
    devices: Map<usize, Device>,
    others: Map<usize, Device>,
    clients: Map<usize, Client>,
    plan: Seq<Message>,
    log: Seq<Delivery>,
)
    requires
        follows(devices, clients, plan, log),
        forall|at: int| 0 <= at < plan.len() ==> (#[trigger] plan[at]) is Update,
    ensures
        follows(others, clients, plan, log),
        forall|at: int| 0 <= at < log.len() ==> !overflows(#[trigger] log[at]),
    decreases plan.len(),
{
    if plan.len() > 0 {
        let shorter = plan.drop_last();
        assert(plan.last() is Update);
        assert forall|at: int| 0 <= at < shorter.len() implies (#[trigger] shorter[at]) is Update by {
            assert(shorter[at] == plan[at]);
        }
        if log.len() > 0 && carries(
            devices,
            clients_after(clients, log.drop_last()),
            log.last(),
            plan.last(),
        ) && follows(devices, clients, shorter, log.drop_last()) {
            lemma_updates_follow(devices, others, clients, shorter, log.drop_last());
            assert forall|at: int| 0 <= at < log.len() implies !overflows(#[trigger] log[at]) by {
                if at < log.len() - 1 {
                    assert(log[at] == log.drop_last()[at]);
                }
            }
        } else {
            lemma_updates_follow(devices, others, clients, shorter, log);
        }
    }
}

/// What one more message adds to a growing log.
proof fn lemma_log_grows(start: Seq<Delivery>, before: Seq<Delivery>, after: Seq<Delivery>)
    requires
        start.is_prefix_of(before),
        before.is_prefix_of(after),
    ensures
        start.is_prefix_of(after),
        added(start, after) == added(start, before) + added(before, after),
{
    assert(before == after.subrange(0, before.len() as int));
    assert(start == before.subrange(0, start.len() as int));
    assert(start =~= after.subrange(0, start.len() as int));
    assert(added(start, after) =~= added(start, before) + added(before, after));
}

/// Sends what the router decided. Devices and clients that are gone are passed over. Fails where a
/// device of this machine does not keep up.
pub fn dispatch_actions(
    actions: Vec<Action>,
    devices: &Slab<Device>,
    clients: &mut Slab<Client>,
    outbox: &mut Outbox,
) -> (result: Result<(), Error>)
    ensures
        old(outbox)@.is_prefix_of(final(outbox)@),
        result matches Err(error) ==> error == Error::Overflow,
        ({
            let before = crate::slots::client_slots(*old(clients));
            let log = added(old(outbox)@, final(outbox)@);
            &&& crate::slots::client_slots(*final(clients)) == clients_after(before, log)
            &&& dispatched(
                crate::slots::device_slots(*devices),
                before,
                messages_of(crate::routing::action_views(actions@)),
                log,
                result is Ok,
            )
        }),
{
    let ghost all = actions@;
    let ghost plan = messages_of(crate::routing::action_views(all));
    let ghost known = crate::slots::device_slots(*devices);
    let ghost before = crate::slots::client_slots(*clients);
    let ghost start = outbox@;
    proof {
        assert(plan.take(0) =~= Seq::<Message>::empty());
        assert(added(start, start) =~= Seq::<Delivery>::empty());
        assert(start.is_prefix_of(start));
    }
    for action in walk: actions
        invariant
            walk.seq() == all,
            all == actions@,
            plan == messages_of(crate::routing::action_views(all)),
            known == crate::slots::device_slots(*devices),
            before == crate::slots::client_slots(*old(clients)),
            start == old(outbox)@,
            start.is_prefix_of(outbox@),
            crate::slots::client_slots(*clients) == clients_after(before, added(start, outbox@)),
            follows(known, before, plan.take(walk.index()), added(start, outbox@)),
            forall|at: int|
                0 <= at < added(start, outbox@).len() ==> !overflows(
                    #[trigger] added(start, outbox@)[at],
                ),
    {
        let ghost count = walk.index();
        let ghost log = added(start, outbox@);
        let ghost handed = outbox@;
        let ghost middle = clients_after(before, log);
        proof {
            assert(action == all[count]);
            assert(plan[count] == message_of(action@));
            assert(plan.take(count + 1) =~= plan.take(count).push(plan[count]));
            assert(plan.take(count + 1).drop_last() =~= plan.take(count));
        }
        let ghost message = message_of(action@);
        let (route, device_id, command, update) = match action {
            Action::Events { route, device_id, events } => {
                if route == 0 {
                    (route, device_id, Some(DeviceCommand::Events(events)), None)
                } else {
                    (route, device_id, None, Some(Update::Events { id: device_id, events }))
                }
            },
            Action::SetKeyState { route, device_id, pressed_keys } => {
                if route == 0 {
                    (route, device_id, Some(DeviceCommand::SetKeyState(pressed_keys)), None)
                } else {
                    (
                        route,
                        device_id,
                        None,
                        Some(Update::SetKeyState { id: device_id, pressed_keys }),
                    )
                }
            },
        };
        if let Some(command) = command {
            assert(message == Message::Command { device: device_id, command: command@ });
            match get_device(devices, device_id) {
                Some(device) => {
                    let ghost sent = command@;
                    let outcome = outbox.send_command(&device.sender, device_id, command);
                    proof {
                        let delivery = Delivery::Command {
                            device: device_id,
                            task: device.sender,
                            command: sent,
                            outcome,
                        };
                        let longer = added(start, outbox@);
                        assert(handed.is_prefix_of(outbox@)) by {
                            assert(outbox@.subrange(0, handed.len() as int) =~= handed);
                        }
                        lemma_log_grows(start, handed, outbox@);
                        assert(added(handed, outbox@) =~= seq![delivery]);
                        assert(longer =~= log.push(delivery));
                        assert(longer.drop_last() =~= log);
                        assert(longer.last() == delivery);
                        assert(clients_after(before, longer) == clients_after(before, log));
                        assert(follows(known, before, plan.take(count + 1), longer));
                        assert forall|at: int| 0 <= at < log.len() implies !overflows(
                            #[trigger] longer[at],
                        ) by {
                            assert(longer[at] == log[at]);
                        }
                    }
                    match outcome {
                        SendOutcome::Sent | SendOutcome::Closed => {},
                        SendOutcome::Full => {
                            proof {
                                let longer = added(start, outbox@);
                                assert(carries(
                                    known,
                                    clients_after(before, longer.drop_last()),
                                    longer.last(),
                                    plan[count + 1 - 1],
                                ));
                                assert(dispatched(known, before, plan, longer, false));
                            }
                            return Err(Error::Overflow);
                        },
                    }
                },
                None => {
                    proof {
                        assert(!is_deliverable(known, middle, message));
                    }
                },
            }
        } else if let Some(update) = update {
            assert(message == Message::Update { client: (route - 1) as usize, update: update@ });
            try_send_update(clients, route - 1, update, outbox);
            proof {
                let more = added(handed, outbox@);
                lemma_log_grows(start, handed, outbox@);
                lemma_clients_after_concat(before, log, more);
                assert(follows(known, middle, seq![message], more));
                lemma_updates_follow(known, known, middle, seq![message], more);
                lemma_follows_concat(known, before, plan.take(count), log, seq![message], more);
                assert(plan.take(count) + seq![message] =~= plan.take(count + 1));
                let longer = added(start, outbox@);
                assert forall|at: int| 0 <= at < longer.len() implies !overflows(
                    #[trigger] longer[at],
                ) by {
                    if at < log.len() {
                        assert(longer[at] == log[at]);
                    } else {
                        assert(longer[at] == more[at - log.len()]);
                    }
                }
            }
        }
    }
    proof {
        assert(plan.take(all.len() as int) =~= plan);
    }
    Ok(())
}

/// Whether deliveries and a state of the router are those of returning to this machine where the
/// current route was lost.
pub open spec fn stabilized(
    devices: Map<usize, Device>,
    clients: Map<usize, Client>,
    router: RouterView,
    log: Seq<Delivery>,
    after: RouterView,
    complete: bool,
) -> bool {
    let routes = routes_of(clients);
    if routes.contains(router.current) {
        log.len() == 0 && after == router && complete
    } else {
        after == router.rehomed() && dispatched(
            devices,
            clients,
            messages_of(after.reconciled(routes, ReconcileMode::Handoff)),
            log,
            complete,
        )
    }
}

/// Returns to this machine where the current route was lost, and sends what that takes. This
/// machine is never lost, so once is enough.
pub fn stabilize_routes(
    router: &mut Router,
    devices: &Slab<Device>,
    clients: &mut Slab<Client>,
    outbox: &mut Outbox,
) -> (result: Result<(), Error>)
    requires
        old(router).wf(),
    ensures
        final(router).wf(),
        old(outbox)@.is_prefix_of(final(outbox)@),
        result matches Err(error) ==> error == Error::Overflow,
        ({
            let before = crate::slots::client_slots(*old(clients));
            let log = added(old(outbox)@, final(outbox)@);
            &&& crate::slots::client_slots(*final(clients)) == clients_after(before, log)
            &&& stabilized(
                crate::slots::device_slots(*devices),
                before,
                old(router)@,
                log,
                final(router)@,
                result is Ok,
            )
        }),
{
    let routes = available_routes(clients);
    let actions = router.retain_routes(routes.as_slice());
    if actions.len() == 0 {
        proof {
            let log = added(outbox@, outbox@);
            assert(log =~= Seq::<Delivery>::empty());
            assert(outbox@.is_prefix_of(outbox@));
            assert(messages_of(crate::routing::action_views(actions@)) =~= Seq::<Message>::empty());
        }
        return Ok(());
    }
    dispatch_actions(actions, devices, clients, outbox)
}

/// Whether deliveries are those of a look at the queue of every client, in order.
pub open spec fn probed(clients: Map<usize, Client>, log: Seq<Delivery>) -> bool {
    let keys = crate::devices::in_order(clients.dom());
    log.len() == keys.len() && forall|at: int|
        0 <= at < log.len() ==> ((#[trigger] log[at]) matches Delivery::Probe { client, queue, .. }
            && client == keys[at] && queue == clients[client].0)
}

/// Drops every client whose queue is closed.
pub fn remove_dead_clients(clients: &mut Slab<Client>, outbox: &mut Outbox)
    ensures
        old(outbox)@.is_prefix_of(final(outbox)@),
        ({
            let before = crate::slots::client_slots(*old(clients));
            let log = added(old(outbox)@, final(outbox)@);
            &&& probed(before, log)
            &&& crate::slots::client_slots(*final(clients)) == clients_after(before, log)
        }),
{
    let ghost before = crate::slots::client_slots(*clients);
    let ghost start = outbox@;
    let keys = client_keys(clients);
    proof {
        crate::devices::lemma_ascending_is_unique(
            keys@,
            crate::devices::in_order(before.dom()),
        );
        assert(start.is_prefix_of(start));
        assert(added(start, start) =~= Seq::<Delivery>::empty());
    }
    let mut index: usize = 0;
    while index < keys.len()
        invariant
            index <= keys@.len(),
            keys@ == crate::devices::in_order(before.dom()),
            crate::devices::ascending(keys@),
            keys@.to_set() == before.dom(),
            start == old(outbox)@,
            start.is_prefix_of(outbox@),
            before == crate::slots::client_slots(*old(clients)),
            added(start, outbox@).len() == index,
            forall|at: int|
                0 <= at < index ==> ((#[trigger] added(start, outbox@)[at]) matches Delivery::Probe {
                    client,
                    queue,
                    ..
                } && client == keys@[at] && queue == before[client].0),
            crate::slots::client_slots(*clients) == clients_after(before, added(start, outbox@)),
            forall|at: int|
                index <= at < keys@.len() ==> crate::slots::client_slots(*clients).contains_key(
                    #[trigger] keys@[at],
                ),
        decreases keys@.len() - index,
    {
        let key: usize = keys[index];
        let ghost log = added(start, outbox@);
        let ghost handed = outbox@;
        let ghost slots = crate::slots::client_slots(*clients);
        assert(slots.contains_key(keys@[index as int]));
        let closed = match get_client(clients, key) {
            Some((queue, _)) => outbox.probe(queue, key),
            None => {
                assert(false);
                false
            },
        };
        if closed {
            remove_client(clients, key);
        }
        proof {
            let delivery = Delivery::Probe { client: key, queue: slots[key].0, closed };
            only_failing_clients_are_dropped(before, log, key);
            assert(outbox@.subrange(0, handed.len() as int) =~= handed);
            lemma_log_grows(start, handed, outbox@);
            assert(added(handed, outbox@) =~= seq![delivery]);
            let longer = added(start, outbox@);
            assert(longer =~= log.push(delivery));
            assert(longer.drop_last() =~= log);
            assert forall|at: int| index + 1 <= at < keys@.len() implies crate::slots::client_slots(
                *clients,
            ).contains_key(#[trigger] keys@[at]) by {
                assert(keys@[index as int] < keys@[at]);
                assert(slots.contains_key(keys@[at]));
            }
        }
        index = index + 1;
    }
}

/// The messages that remove a device from a client and make it anew.
pub open spec fn reset_messages(client: usize, id: usize, device: Device) -> Seq<Message> {
    seq![
        Message::Update { client, update: UpdateView::DestroyDevice { id } },
        Message::Update { client, update: creation(id, device) },
    ]
}

/// Removes a device from a client and makes it anew, so that no key stays down on it. A client that
/// does not take both updates is dropped.
pub fn reset_client_device(
    clients: &mut Slab<Client>,
    key: usize,
    id: usize,
    device: &Device,
    outbox: &mut Outbox,
) -> (sent: bool)
    ensures
        old(outbox)@.is_prefix_of(final(outbox)@),
        ({
            let before = crate::slots::client_slots(*old(clients));
            let log = added(old(outbox)@, final(outbox)@);
            &&& crate::slots::client_slots(*final(clients)) == clients_after(before, log)
            &&& forall|devices: Map<usize, Device>| #[trigger]
                follows(devices, before, reset_messages(key, id, *device), log)
            &&& sent == crate::slots::client_slots(*final(clients)).contains_key(key)
        }),
{
    let ghost before = crate::slots::client_slots(*clients);
    let ghost start = outbox@;
    let ghost first_plan = seq![
        Message::Update { client: key, update: UpdateView::DestroyDevice { id } },
    ];
    let ghost second_plan = seq![Message::Update { client: key, update: creation(id, *device) }];
    proof {
        assert(first_plan + second_plan =~= reset_messages(key, id, *device));
        assert(first_plan =~= reset_messages(key, id, *device).drop_last());
    }
    if !try_send_update(clients, key, Update::DestroyDevice { id }, outbox) {
        proof {
            let log = added(start, outbox@);
            assert forall|devices: Map<usize, Device>| #[trigger]
                follows(devices, before, reset_messages(key, id, *device), log) by {
                assert(follows(devices, before, first_plan, log));
            }
        }
        return false;
    }
    let ghost middle = outbox@;
    let sent = try_send_update(clients, key, create_device_update(id, device), outbox);
    proof {
        let first = added(start, middle);
        let second = added(middle, outbox@);
        lemma_log_grows(start, middle, outbox@);
        lemma_clients_after_concat(before, first, second);
        assert forall|devices: Map<usize, Device>| #[trigger]
            follows(
                devices,
                before,
                reset_messages(key, id, *device),
                added(start, outbox@),
            ) by {
            assert(follows(devices, before, first_plan, first));
            assert(follows(devices, clients_after(before, first), second_plan, second));
            lemma_follows_concat(devices, before, first_plan, first, second_plan, second);
        }
    }
    sent
}

/// The same update for each of some clients.
pub open spec fn update_for_all(keys: Seq<usize>, update: UpdateView) -> Seq<Message> {
    keys.map_values(|key: usize| Message::Update { client: key, update })
}

/// The updates that make a device anew on each of some clients.
pub open spec fn reset_for_all(keys: Seq<usize>, id: usize, device: Device) -> Seq<Message>
    decreases keys.len(),
{
    if keys.len() == 0 {
        seq![]
    } else {
        reset_for_all(keys.drop_last(), id, device) + reset_messages(keys.last(), id, device)
    }
}

/// What is done to a device on all clients.
#[derive(Clone, Copy, Debug, PartialEq, Eq, Structural)]
enum Change {
    Create,
    Destroy,
    Reset,
}

/// The messages that change a device on some clients.
spec fn change_for_all(
    keys: Seq<usize>,
    change: Change,
    id: usize,
    device: Device,
) -> Seq<Message> {
    match change {
        Change::Create => update_for_all(keys, creation(id, device)),
        Change::Destroy => update_for_all(keys, UpdateView::DestroyDevice { id }),
        Change::Reset => reset_for_all(keys, id, device),
    }
}

/// Changes a device on all clients, in order.
fn change_everywhere(
    clients: &mut Slab<Client>,
    change: Change,
    id: usize,
    device: &Device,
    outbox: &mut Outbox,
)
    ensures
        old(outbox)@.is_prefix_of(final(outbox)@),
        ({
            let before = crate::slots::client_slots(*old(clients));
            let log = added(old(outbox)@, final(outbox)@);
            let keys = crate::devices::in_order(before.dom());
            &&& crate::slots::client_slots(*final(clients)) == clients_after(before, log)
            &&& forall|devices: Map<usize, Device>| #[trigger]
                follows(devices, before, change_for_all(keys, change, id, *device), log)
        }),
{
    let ghost before = crate::slots::client_slots(*clients);
    let ghost start = outbox@;
    let keys = client_keys(clients);
    let ghost device_then = *device;
    proof {
        crate::devices::lemma_ascending_is_unique(
            keys@,
            crate::devices::in_order(before.dom()),
        );
        assert(start.is_prefix_of(start));
        assert(added(start, start) =~= Seq::<Delivery>::empty());
        assert(keys@.take(0) =~= Seq::<usize>::empty());
        assert(change_for_all(keys@.take(0), change, id, device_then) =~= Seq::<Message>::empty());
    }
    let mut index: usize = 0;
    while index < keys.len()
        invariant
            index <= keys@.len(),
            start == old(outbox)@,
            start.is_prefix_of(outbox@),
            device_then == *device,
            crate::slots::client_slots(*clients) == clients_after(before, added(start, outbox@)),
            forall|devices: Map<usize, Device>| #[trigger]
                follows(
                    devices,
                    before,
                    change_for_all(keys@.take(index as int), change, id, device_then),
                    added(start, outbox@),
                ),
        decreases keys@.len() - index,
    {
        let key: usize = keys[index];
        let ghost log = added(start, outbox@);
        let ghost handed = outbox@;
        let ghost shorter = change_for_all(keys@.take(index as int), change, id, device_then);
        let ghost longer = change_for_all(keys@.take(index + 1), change, id, device_then);
        let ghost step = match change {
            Change::Create => seq![
                Message::Update { client: key, update: creation(id, device_then) },
            ],
            Change::Destroy => seq![
                Message::Update { client: key, update: UpdateView::DestroyDevice { id } },
            ],
            Change::Reset => reset_messages(key, id, device_then),
        };
        proof {
            let more = keys@.take(index + 1);
            assert(more =~= keys@.take(index as int).push(key));
            assert(more.drop_last() =~= keys@.take(index as int));
            assert(longer =~= shorter + step);
        }
        match change {
            Change::Create => {
                try_send_update(clients, key, create_device_update(id, device), outbox);
            },
            Change::Destroy => {
                try_send_update(clients, key, Update::DestroyDevice { id }, outbox);
            },
            Change::Reset => {
                reset_client_device(clients, key, id, device, outbox);
            },
        }
        proof {
            let more = added(handed, outbox@);
            lemma_log_grows(start, handed, outbox@);
            lemma_clients_after_concat(before, log, more);
            assert forall|devices: Map<usize, Device>| #[trigger]
                follows(devices, before, longer, added(start, outbox@)) by {
                assert(follows(devices, before, shorter, log));
                assert(follows(devices, clients_after(before, log), step, more));
                lemma_follows_concat(devices, before, shorter, log, step, more);
            }
        }
        index = index + 1;
    }
    proof {
        assert(keys@.take(index as int) =~= keys@);
    }
}

/// The server's tables, its router, and its deliveries.
pub struct Server {
    devices: Slab<Device>,
    clients: Slab<Client>,
    router: Router,
    outbox: Outbox,
}

/// The state of a [`Server`].
#[verifier::ext_equal]
pub struct ServerView {
    pub devices: Map<usize, Device>,
    /// The number that the next device gets.
    pub next_id: usize,
    pub clients: Map<usize, Client>,
    pub router: RouterView,
    /// All deliveries so far.
    pub log: Seq<Delivery>,
}

impl View for Server {
    type V = ServerView;

    closed spec fn view(&self) -> ServerView {
        ServerView {
            devices: crate::slots::device_slots(self.devices),
            next_id: crate::slots::device_vacancy(self.devices),
            clients: crate::slots::client_slots(self.clients),
            router: self.router@,
            log: self.outbox@,
        }
    }
}

impl ServerView {
    /// The deliveries that were made since an earlier state.
    pub open spec fn since(self, before: ServerView) -> Seq<Delivery> {
        added(before.log, self.log)
    }

    /// Whether this state can come after another: deliveries are only added, and of the clients
    /// those are left that took what they were sent.
    pub open spec fn succeeds(self, before: ServerView, clients: Map<usize, Client>) -> bool {
        &&& before.log.is_prefix_of(self.log)
        &&& self.clients == clients_after(clients, self.since(before))
    }

    /// The numbers of the clients, in ascending order.
    pub open spec fn client_order(self) -> Seq<usize> {
        crate::devices::in_order(self.clients.dom())
    }

    /// Whether a number stands for the device of a takeover.
    pub open spec fn is_current(self, id: usize, activation_id: ActivationId) -> bool {
        self.devices.contains_key(id) && self.devices[id].activation_id == activation_id
    }
}

/// Whether deliveries and a state of the router are those of sending some actions, and of then
/// returning to this machine where the current route was lost. Where a device of this machine does
/// not keep up, it ends there.
pub open spec fn carried_out(
    devices: Map<usize, Device>,
    clients: Map<usize, Client>,
    router: RouterView,
    actions: Seq<ActionView>,
    log: Seq<Delivery>,
    after: RouterView,
    complete: bool,
) -> bool {
    ||| !complete && after == router && dispatched(
        devices,
        clients,
        messages_of(actions),
        log,
        false,
    )
    ||| exists|middle: int|
        0 <= middle <= log.len() && dispatched(
            devices,
            clients,
            messages_of(actions),
            #[trigger] log.take(middle),
            true,
        ) && stabilized(
            devices,
            clients_after(clients, log.take(middle)),
            router,
            log.skip(middle),
            after,
            complete,
        )
}

/// Whether a state is that after dead clients were dropped, and this machine took over where the
/// current route was lost.
pub open spec fn is_tidied(before: ServerView, after: ServerView, complete: bool) -> bool {
    &&& after.succeeds(before, before.clients)
    &&& after.devices == before.devices
    &&& after.next_id == before.next_id
    &&& exists|middle: int|
        0 <= middle <= after.since(before).len() && probed(
            before.clients,
            #[trigger] after.since(before).take(middle),
        ) && stabilized(
            before.devices,
            clients_after(before.clients, after.since(before).take(middle)),
            before.router,
            after.since(before).skip(middle),
            after.router,
            complete,
        )
}

/// The updates that make all devices known to a client.
pub open spec fn introduction(client: usize, devices: Map<usize, Device>) -> Seq<Message> {
    crate::devices::in_order(devices.dom()).map_values(
        |id: usize| Message::Update { client, update: creation(id, devices[id]) },
    )
}

/// Whether a state is that after a client was added and told of all devices.
pub open spec fn has_joined(
    before: ServerView,
    key: usize,
    client: Client,
    after: ServerView,
    complete: bool,
) -> bool {
    let clients = before.clients.insert(key, client);
    &&& key < usize::MAX
    &&& !before.clients.contains_key(key)
    &&& after.succeeds(before, clients)
    &&& after.devices == before.devices
    &&& after.next_id == before.next_id
    &&& exists|middle: int|
        0 <= middle <= after.since(before).len() && follows(
            before.devices,
            clients,
            introduction(key, before.devices),
            #[trigger] after.since(before).take(middle),
        ) && stabilized(
            before.devices,
            clients_after(clients, after.since(before).take(middle)),
            before.router,
            after.since(before).skip(middle),
            after.router,
            complete,
        )
}

/// Whether a state is that after a device was added: all clients are told of it, and its held keys
/// are shown on the current route.
pub open spec fn is_activated(
    before: ServerView,
    device: Device,
    pressed: Set<Key>,
    after: ServerView,
    complete: bool,
) -> bool {
    let id = before.next_id;
    let router = before.router.with_device(id, pressed);
    &&& !before.devices.contains_key(id)
    &&& after.succeeds(before, before.clients)
    &&& after.devices == before.devices.insert(id, device)
    &&& exists|middle: int|
        0 <= middle <= after.since(before).len() && follows(
            before.devices,
            before.clients,
            update_for_all(before.client_order(), creation(id, device)),
            #[trigger] after.since(before).take(middle),
        ) && carried_out(
            after.devices,
            clients_after(before.clients, after.since(before).take(middle)),
            router,
            router.device_reconciled(
                id,
                routes_of(clients_after(before.clients, after.since(before).take(middle))),
                ReconcileMode::Recovery,
            ),
            after.since(before).skip(middle),
            after.router,
            complete,
        )
}

/// Whether a state is that after the router decided something and it was sent.
pub open spec fn is_routed(
    before: ServerView,
    router: RouterView,
    actions: Seq<ActionView>,
    after: ServerView,
    complete: bool,
) -> bool {
    &&& after.succeeds(before, before.clients)
    &&& after.devices == before.devices
    &&& after.next_id == before.next_id
    &&& carried_out(
        before.devices,
        before.clients,
        router,
        actions,
        after.since(before),
        after.router,
        complete,
    )
}

/// Whether a state is that after a frame of a device.
pub open spec fn is_frame_routed(
    before: ServerView,
    id: usize,
    events: Seq<Event>,
    after: ServerView,
    complete: bool,
) -> bool {
    let routes = routes_of(before.clients);
    is_routed(
        before,
        before.router.after_frame(id, events, routes),
        before.router.frame_actions(id, events, routes),
        after,
        complete,
    )
}

/// Whether a state is that after the keys of a device were taken over anew.
pub open spec fn is_device_reset(
    before: ServerView,
    id: usize,
    pressed: Set<Key>,
    after: ServerView,
    complete: bool,
) -> bool {
    let router = before.router.with_device_reset(id, pressed);
    is_routed(
        before,
        router,
        router.device_reconciled(id, routes_of(before.clients), ReconcileMode::Recovery),
        after,
        complete,
    )
}

/// Whether a state is that after a device was made anew on all clients.
pub open spec fn is_renewed(before: ServerView, id: usize, after: ServerView) -> bool {
    &&& after.succeeds(before, before.clients)
    &&& after.devices == before.devices
    &&& after.next_id == before.next_id
    &&& after.router == before.router
    &&& follows(
        before.devices,
        before.clients,
        reset_for_all(before.client_order(), id, before.devices[id]),
        after.since(before),
    )
}

/// Whether a state is that after a device was removed and all clients were told. The router still
/// knows of it, until its task has stopped.
pub open spec fn is_removed(before: ServerView, id: usize, after: ServerView) -> bool {
    &&& after.succeeds(before, before.clients)
    &&& after.devices == before.devices.remove(id)
    &&& after.next_id == id
    &&& after.router == before.router
    &&& follows(
        before.devices,
        before.clients,
        update_for_all(before.client_order(), UpdateView::DestroyDevice { id }),
        after.since(before),
    )
}

/// Whether a state is that after the task of a removed device has stopped.
pub open spec fn is_stopped(
    before: ServerView,
    id: usize,
    after: ServerView,
    complete: bool,
) -> bool {
    &&& after.succeeds(before, before.clients)
    &&& after.devices == before.devices
    &&& after.next_id == before.next_id
    &&& stabilized(
        before.devices,
        before.clients,
        before.router.without_device(id),
        after.since(before),
        after.router,
        complete,
    )
}

proof fn lemma_split(whole: Seq<Delivery>, first: Seq<Delivery>, second: Seq<Delivery>)
    requires
        whole == first + second,
    ensures
        whole.take(first.len() as int) == first,
        whole.skip(first.len() as int) == second,
{
    assert(whole.take(first.len() as int) =~= first);
    assert(whole.skip(first.len() as int) =~= second);
}

impl Server {
    /// What holds of every server.
    pub closed spec fn wf(&self) -> bool {
        self.router.wf()
    }

    /// A server without devices and clients.
    pub fn new(bindings: &[SwitchBinding], propagate_switch_keys: bool) -> (server: Server)
        ensures
            server.wf(),
            server@.devices == Map::<usize, Device>::empty(),
            server@.clients == Map::<usize, Client>::empty(),
            server@.router == (RouterView {
                bindings: crate::routing::chords(bindings@),
                propagate: propagate_switch_keys,
                current: 0,
                active: None,
                physical: Map::empty(),
                blocked: Map::empty(),
            }),
            server@.log == Seq::<Delivery>::empty(),
    {
        let server = Server {
            devices: no_devices(),
            clients: no_clients(),
            router: Router::new(bindings, propagate_switch_keys),
            outbox: Outbox::new(),
        };
        proof {
            assert(server@.devices =~= Map::<usize, Device>::empty());
            assert(server@.clients =~= Map::<usize, Client>::empty());
        }
        server
    }

    /// The route that receives the input.
    pub fn current_route(&self) -> (route: Route)
        ensures
            route == self@.router.current,
    {
        self.router.current()
    }

    /// The device with a number.
    pub fn device(&self, id: usize) -> (device: Option<&Device>)
        ensures
            match device {
                Some(device) => self@.devices.contains_key(id) && self@.devices[id] == *device,
                None => !self@.devices.contains_key(id),
            },
    {
        get_device(&self.devices, id)
    }

    /// The client with a number.
    pub fn client(&self, key: usize) -> (client: Option<&Client>)
        ensures
            match client {
                Some(client) => self@.clients.contains_key(key) && self@.clients[key] == *client,
                None => !self@.clients.contains_key(key),
            },
    {
        get_client(&self.clients, key)
    }

    /// The number that the next device gets.
    pub fn next_device_id(&self) -> (id: usize)
        ensures
            id == self@.next_id,
            !self@.devices.contains_key(id),
    {
        vacant_device(&self.devices)
    }

    /// Whether an event of a device's task is from the takeover that the device now stands for.
    pub fn is_current(&self, id: usize, activation_id: ActivationId) -> (current: bool)
        ensures
            current == self@.is_current(id, activation_id),
    {
        is_current_device_event(&self.devices, id, activation_id)
    }

    /// The device of a takeover, the lowest number first.
    pub fn device_of(&self, activation_id: ActivationId) -> (found: Option<usize>)
        ensures
            match found {
                Some(id) => self@.is_current(id, activation_id) && forall|other: usize|
                    other < id ==> !self@.is_current(other, activation_id),
                None => forall|id: usize| !self@.is_current(id, activation_id),
            },
    {
        let ids = device_ids(&self.devices);
        let mut index: usize = 0;
        while index < ids.len()
            invariant
                index <= ids@.len(),
                crate::devices::ascending(ids@),
                ids@.to_set() == self@.devices.dom(),
                forall|at: int|
                    0 <= at < index ==> !self@.is_current(#[trigger] ids@[at], activation_id),
            decreases ids@.len() - index,
        {
            if self.is_current(ids[index], activation_id) {
                proof {
                    let id = ids@[index as int];
                    assert forall|other: usize| other < id implies !self@.is_current(
                        other,
                        activation_id,
                    ) by {
                        if self@.is_current(other, activation_id) {
                            assert(ids@.to_set().contains(other));
                            let at = choose|at: int| 0 <= at < ids@.len() && ids@[at] == other;
                            if at >= index {
                                assert(ids@[index as int] <= ids@[at]);
                            }
                        }
                    }
                }
                return Some(ids[index]);
            }
            index = index + 1;
        }
        proof {
            assert forall|id: usize| !self@.is_current(id, activation_id) by {
                if self@.is_current(id, activation_id) {
                    assert(ids@.to_set().contains(id));
                    let at = choose|at: int| 0 <= at < ids@.len() && ids@[at] == id;
                    assert(!self@.is_current(ids@[at], activation_id));
                }
            }
        }
        None
    }

    /// Drops dead clients, and returns to this machine where the current route was lost.
    fn tidy(&mut self) -> (result: Result<(), Error>)
        requires
            old(self).wf(),
        ensures
            final(self).wf(),
            result matches Err(error) ==> error == Error::Overflow,
            is_tidied(old(self)@, final(self)@, result is Ok),
    {
        let ghost before = self@;
        remove_dead_clients(&mut self.clients, &mut self.outbox);
        let ghost middle = self@;
        let result = stabilize_routes(
            &mut self.router,
            &self.devices,
            &mut self.clients,
            &mut self.outbox,
        );
        proof {
            let first = added(before.log, middle.log);
            let second = added(middle.log, self@.log);
            lemma_log_grows(before.log, middle.log, self@.log);
            lemma_clients_after_concat(before.clients, first, second);
            lemma_split(self@.since(before), first, second);
            assert(probed(before.clients, self@.since(before).take(first.len() as int)));
        }
        result
    }

    /// Sends some actions, and returns to this machine where the current route was lost.
    fn carry_out(&mut self, actions: Vec<Action>) -> (result: Result<(), Error>)
        requires
            old(self).wf(),
        ensures
            final(self).wf(),
            result matches Err(error) ==> error == Error::Overflow,
            is_routed(
                old(self)@,
                old(self)@.router,
                crate::routing::action_views(actions@),
                final(self)@,
                result is Ok,
            ),
    {
        let ghost before = self@;
        let ghost views = crate::routing::action_views(actions@);
        match dispatch_actions(actions, &self.devices, &mut self.clients, &mut self.outbox) {
            Ok(_) => {},
            Err(error) => {
                return Err(error);
            },
        }
        let ghost middle = self@;
        let result = stabilize_routes(
            &mut self.router,
            &self.devices,
            &mut self.clients,
            &mut self.outbox,
        );
        proof {
            let first = added(before.log, middle.log);
            let second = added(middle.log, self@.log);
            lemma_log_grows(before.log, middle.log, self@.log);
            lemma_clients_after_concat(before.clients, first, second);
            lemma_split(self@.since(before), first, second);
            assert(dispatched(
                before.devices,
                before.clients,
                messages_of(views),
                self@.since(before).take(first.len() as int),
                true,
            ));
        }
        result
    }

    /// Adds a client, and tells it of all devices.
    pub fn join(&mut self, sender: Sender<Update>, addr: String) -> (result: Result<usize, Error>)
        requires
            old(self).wf(),
        ensures
            final(self).wf(),
            match result {
                Ok(key) => has_joined(old(self)@, key, (sender, addr), final(self)@, true),
                Err(error) => error == Error::Overflow && exists|key: usize|
                    has_joined(old(self)@, key, (sender, addr), final(self)@, false),
            },
    {
        let ghost before = self@;
        let ghost client = (sender, addr);
        let key = insert_client(&mut self.clients, (sender, addr));
        let ghost clients = before.clients.insert(key, client);
        let ids = device_ids(&self.devices);
        let ghost plan = introduction(key, before.devices);
        proof {
            crate::devices::lemma_ascending_is_unique(
                ids@,
                crate::devices::in_order(before.devices.dom()),
            );
            assert(before.log.is_prefix_of(before.log));
            assert(added(before.log, before.log) =~= Seq::<Delivery>::empty());
            assert(plan.take(0) =~= Seq::<Message>::empty());
        }
        let mut index: usize = 0;
        while index < ids.len()
            invariant
                index <= ids@.len(),
                self.wf(),
                ids@ == crate::devices::in_order(before.devices.dom()),
                ids@.to_set() == before.devices.dom(),
                plan == introduction(key, before.devices),
                before.log.is_prefix_of(self@.log),
                self@.devices == before.devices,
                self@.next_id == before.next_id,
                self@.router == before.router,
                self@.clients == clients_after(clients, added(before.log, self@.log)),
                follows(
                    before.devices,
                    clients,
                    plan.take(index as int),
                    added(before.log, self@.log),
                ),
            decreases ids@.len() - index,
        {
            let id: usize = ids[index];
            let ghost earlier = self@;
            proof {
                assert(ids@.to_set().contains(id));
                assert(plan.take(index + 1) =~= plan.take(index as int).push(plan[index as int]));
            }
            if let Some(device) = get_device(&self.devices, id) {
                let update = create_device_update(id, device);
                try_send_update(&mut self.clients, key, update, &mut self.outbox);
                proof {
                    let first = added(before.log, earlier.log);
                    let second = added(earlier.log, self@.log);
                    let step = seq![plan[index as int]];
                    lemma_log_grows(before.log, earlier.log, self@.log);
                    lemma_clients_after_concat(clients, first, second);
                    assert(follows(
                        before.devices,
                        clients_after(clients, first),
                        step,
                        second,
                    ));
                    lemma_follows_concat(
                        before.devices,
                        clients,
                        plan.take(index as int),
                        first,
                        step,
                        second,
                    );
                    assert(plan.take(index as int) + step =~= plan.take(index + 1));
                }
            }
            index = index + 1;
        }
        let ghost middle = self@;
        proof {
            assert(plan.take(index as int) =~= plan);
        }
        let result = stabilize_routes(
            &mut self.router,
            &self.devices,
            &mut self.clients,
            &mut self.outbox,
        );
        proof {
            let first = added(before.log, middle.log);
            let second = added(middle.log, self@.log);
            lemma_log_grows(before.log, middle.log, self@.log);
            lemma_clients_after_concat(clients, first, second);
            lemma_split(self@.since(before), first, second);
            assert(follows(
                before.devices,
                clients,
                plan,
                self@.since(before).take(first.len() as int),
            ));
            assert(has_joined(before, key, client, self@, result is Ok));
        }
        match result {
            Ok(_) => Ok(key),
            Err(error) => Err(error),
        }
    }

    /// Takes a connection: dead clients make room first.
    pub fn accepted(&mut self) -> (result: Result<(), Error>)
        requires
            old(self).wf(),
        ensures
            final(self).wf(),
            result matches Err(error) ==> error == Error::Overflow,
            is_tidied(old(self)@, final(self)@, result is Ok),
    {
        self.tidy()
    }

    /// Takes a client that has authenticated. Returns its number.
    pub fn authenticated(&mut self, sender: Sender<Update>, addr: String) -> (result: Result<
        usize,
        Error,
    >)
        requires
            old(self).wf(),
        ensures
            final(self).wf(),
            match result {
                Ok(key) => exists|middle: ServerView|
                    is_tidied(old(self)@, middle, true) && #[trigger] has_joined(
                        middle,
                        key,
                        (sender, addr),
                        final(self)@,
                        true,
                    ),
                Err(error) => error == Error::Overflow && (is_tidied(
                    old(self)@,
                    final(self)@,
                    false,
                ) || exists|middle: ServerView, key: usize|
                    is_tidied(old(self)@, middle, true) && #[trigger] has_joined(
                        middle,
                        key,
                        (sender, addr),
                        final(self)@,
                        false,
                    )),
            },
    {
        match self.tidy() {
            Ok(_) => {},
            Err(error) => {
                return Err(error);
            },
        }
        self.join(sender, addr)
    }

    /// Adds a device with some of its keys held. Returns its number.
    pub fn activated(&mut self, device: Device, pressed_keys: KeySet) -> (result: Result<
        usize,
        Error,
    >)
        requires
            old(self).wf(),
        ensures
            final(self).wf(),
            result matches Ok(id) ==> id == old(self)@.next_id,
            result matches Err(error) ==> error == Error::Overflow,
            is_activated(old(self)@, device, pressed_keys@, final(self)@, result is Ok),
    {
        let ghost before = self@;
        let ghost pressed = pressed_keys@;
        let ghost added_device = device;
        let id = vacant_device(&self.devices);
        change_everywhere(&mut self.clients, Change::Create, id, &device, &mut self.outbox);
        let ghost middle = self@;
        insert_device(&mut self.devices, device);
        let routes = available_routes(&self.clients);
        let actions = self.router.add_device(id, pressed_keys, routes.as_slice());
        let ghost sending = self@;
        let result = self.carry_out(actions);
        proof {
            let first = added(before.log, middle.log);
            let second = added(middle.log, self@.log);
            lemma_log_grows(before.log, middle.log, self@.log);
            lemma_clients_after_concat(before.clients, first, second);
            lemma_split(self@.since(before), first, second);
            assert(follows(
                before.devices,
                before.clients,
                change_for_all(before.client_order(), Change::Create, id, added_device),
                first,
            ));
            assert(follows(
                before.devices,
                before.clients,
                update_for_all(before.client_order(), creation(id, added_device)),
                self@.since(before).take(first.len() as int),
            ));
            assert(self@.since(sending) == second);
        }
        match result {
            Ok(_) => Ok(id),
            Err(error) => Err(error),
        }
    }

    /// Routes a frame of a device, unless it is from an earlier takeover. Tells whether it was
    /// routed.
    pub fn frame(
        &mut self,
        id: usize,
        activation_id: ActivationId,
        events: Vec<Event>,
    ) -> (result: Result<bool, Error>)
        requires
            old(self).wf(),
        ensures
            final(self).wf(),
            match result {
                Ok(routed) => if old(self)@.is_current(id, activation_id) {
                    routed && is_frame_routed(old(self)@, id, events@, final(self)@, true)
                } else {
                    !routed && final(self)@ == old(self)@
                },
                Err(error) => old(self)@.is_current(id, activation_id) && error == Error::Overflow
                    && is_frame_routed(old(self)@, id, events@, final(self)@, false),
            },
    {
        if !self.is_current(id, activation_id) {
            return Ok(false);
        }
        let routes = available_routes(&self.clients);
        let actions = self.router.process_frame(id, events, routes.as_slice());
        match self.carry_out(actions) {
            Ok(_) => Ok(true),
            Err(error) => Err(error),
        }
    }

    /// Takes note that events of a device were lost, unless it is from an earlier takeover: the
    /// device is made anew on all clients. The device of this machine is to be reset next. Tells
    /// whether it is.
    pub fn input_lost(&mut self, id: usize, activation_id: ActivationId) -> (current: bool)
        requires
            old(self).wf(),
        ensures
            final(self).wf(),
            current == old(self)@.is_current(id, activation_id),
            if current {
                is_renewed(old(self)@, id, final(self)@)
            } else {
                final(self)@ == old(self)@
            },
    {
        if !self.is_current(id, activation_id) {
            return false;
        }
        let ghost before = self@;
        if let Some(device) = get_device(&self.devices, id) {
            change_everywhere(&mut self.clients, Change::Reset, id, device, &mut self.outbox);
            proof {
                assert(follows(
                    before.devices,
                    before.clients,
                    change_for_all(before.client_order(), Change::Reset, id, before.devices[id]),
                    added(before.log, self@.log),
                ));
            }
        }
        true
    }

    /// Takes over the keys of a device once it was reset.
    pub fn reset_device(&mut self, id: usize, pressed_keys: KeySet) -> (result: Result<(), Error>)
        requires
            old(self).wf(),
        ensures
            final(self).wf(),
            result matches Err(error) ==> error == Error::Overflow,
            is_device_reset(old(self)@, id, pressed_keys@, final(self)@, result is Ok),
    {
        let routes = available_routes(&self.clients);
        let actions = self.router.reset_device(id, pressed_keys, routes.as_slice());
        self.carry_out(actions)
    }

    /// Goes on after the input of a device was lost, by whether its task took the order to reset the
    /// virtual device. If it did, the keys of the device are taken over. If it did not, the device is
    /// to be removed, and the cause is returned.
    pub fn recover(&mut self, id: usize, reset: bool, pressed_keys: KeySet) -> (result: Result<
        Option<ReleaseCause>,
        Error,
    >)
        requires
            old(self).wf(),
        ensures
            final(self).wf(),
            if reset {
                &&& is_device_reset(old(self)@, id, pressed_keys@, final(self)@, result is Ok)
                &&& match result {
                    Ok(cause) => cause is None,
                    Err(error) => error == Error::Overflow,
                }
            } else {
                &&& final(self)@ == old(self)@
                &&& result == Ok::<Option<ReleaseCause>, Error>(Some(ReleaseCause::Failed))
            },
    {
        if !reset {
            return Ok(Some(ReleaseCause::Failed));
        }
        match self.reset_device(id, pressed_keys) {
            Ok(_) => Ok(None),
            Err(error) => Err(error),
        }
    }

    /// What the failure of a device means, unless it is from an earlier takeover.
    pub fn failure(
        &self,
        id: usize,
        activation_id: ActivationId,
        err: &IoError,
    ) -> (cause: Option<ReleaseCause>)
        ensures
            cause == if !self@.is_current(id, activation_id) {
                None
            } else if err.disconnected() {
                Some(ReleaseCause::Disconnected)
            } else {
                Some(ReleaseCause::Failed)
            },
    {
        if !self.is_current(id, activation_id) {
            return None;
        }
        if is_device_disconnect(err) {
            Some(ReleaseCause::Disconnected)
        } else {
            Some(ReleaseCause::Failed)
        }
    }

    /// Removes a device, and tells all clients. Its task is to be stopped next. Returns the number
    /// of its takeover.
    pub fn begin_destroy(&mut self, id: usize) -> (activation_id: Option<ActivationId>)
        requires
            old(self).wf(),
        ensures
            final(self).wf(),
            match activation_id {
                Some(activation_id) => old(self)@.is_current(id, activation_id) && is_removed(
                    old(self)@,
                    id,
                    final(self)@,
                ),
                None => !old(self)@.devices.contains_key(id) && final(self)@ == old(self)@,
            },
    {
        let ghost before = self@;
        match remove_device(&mut self.devices, id) {
            Some(device) => {
                let ghost removed = device;
                change_everywhere(
                    &mut self.clients,
                    Change::Destroy,
                    id,
                    &device,
                    &mut self.outbox,
                );
                proof {
                    assert(follows(
                        before.devices,
                        before.clients,
                        change_for_all(before.client_order(), Change::Destroy, id, removed),
                        added(before.log, self@.log),
                    ));
                }
                Some(device.activation_id)
            },
            None => {
                proof {
                    assert(self@.devices =~= before.devices);
                }
                None
            },
        }
    }

    /// Takes note that the task of a removed device has stopped.
    pub fn finish_destroy(&mut self, id: usize) -> (result: Result<(), Error>)
        requires
            old(self).wf(),
        ensures
            final(self).wf(),
            result matches Err(error) ==> error == Error::Overflow,
            is_stopped(old(self)@, id, final(self)@, result is Ok),
    {
        self.router.remove_device(id);
        stabilize_routes(&mut self.router, &self.devices, &mut self.clients, &mut self.outbox)
    }
}

/// A client is dropped exactly when a queue look or an update finds its queue full or closed. The
/// others stay as they are.
pub proof fn only_failing_clients_are_dropped(
    clients: Map<usize, Client>,
    log: Seq<Delivery>,
    key: usize,
)
    ensures
        clients_after(clients, log).contains_key(key) <==> clients.contains_key(key) && forall|
            at: int,
        | 0 <= at < log.len() ==> lost_client(#[trigger] log[at]) != Some(key),
        clients_after(clients, log).contains_key(key) ==> clients_after(clients, log)[key]
            == clients[key],
    decreases log.len(),
{
    if log.len() > 0 {
        let shorter = log.drop_last();
        only_failing_clients_are_dropped(clients, shorter, key);
        if clients_after(clients, log).contains_key(key) {
            assert forall|at: int| 0 <= at < log.len() implies lost_client(#[trigger] log[at])
                != Some(key) by {
                if at < log.len() - 1 {
                    assert(log[at] == shorter[at]);
                }
            }
        }
        if clients.contains_key(key) && forall|at: int|
            0 <= at < log.len() ==> lost_client(#[trigger] log[at]) != Some(key) {
            assert forall|at: int| 0 <= at < shorter.len() implies lost_client(
                #[trigger] shorter[at],
            ) != Some(key) by {
                assert(shorter[at] == log[at]);
            }
            assert(lost_client(log[log.len() - 1]) != Some(key));
        }
    }
}

/// A client that is left after some messages were sent took every one that was for it, through its
/// queue.
pub proof fn remaining_clients_took_everything(
    devices: Map<usize, Device>,
    clients: Map<usize, Client>,
    plan: Seq<Message>,
    log: Seq<Delivery>,
    at: int,
)
    requires
        follows(devices, clients, plan, log),
        0 <= at < plan.len(),
        plan[at] matches Message::Update { client, .. } && clients_after(
            clients,
            log,
        ).contains_key(client),
    ensures
        exists|to: int|
            0 <= to < log.len() && #[trigger] carries(devices, clients, log[to], plan[at]) && (
            log[to] matches Delivery::Update { outcome: SendOutcome::Sent, .. }),
    decreases plan.len(),
{
    let client = plan[at]->Update_client;
    only_failing_clients_are_dropped(clients, log, client);
    let shorter = plan.drop_last();
    if log.len() > 0 && carries(
        devices,
        clients_after(clients, log.drop_last()),
        log.last(),
        plan.last(),
    ) && follows(devices, clients, shorter, log.drop_last()) {
        only_failing_clients_are_dropped(clients, log.drop_last(), client);
        if at == plan.len() - 1 {
            assert(lost_client(log[log.len() - 1]) != Some(client));
            assert(carries(devices, clients, log[log.len() - 1], plan[at]));
        } else {
            assert(shorter[at] == plan[at]);
            remaining_clients_took_everything(devices, clients, shorter, log.drop_last(), at);
            let to = choose|to: int|
                0 <= to < log.drop_last().len() && #[trigger] carries(
                    devices,
                    clients,
                    log.drop_last()[to],
                    shorter[at],
                ) && (log.drop_last()[to] matches Delivery::Update {
                    outcome: SendOutcome::Sent,
                    ..
                });
            assert(log[to] == log.drop_last()[to]);
            assert(carries(devices, clients, log[to], plan[at]));
        }
    } else {
        if at < plan.len() - 1 {
            assert(shorter[at] == plan[at]);
            remaining_clients_took_everything(devices, clients, shorter, log, at);
        }
    }
}

/// There is a route to this machine, and one to each client.
pub proof fn routes_lead_to_clients(clients: Map<usize, Client>, route: Route)
    requires
        clients.dom().finite(),
        forall|key: usize| #[trigger] clients.contains_key(key) ==> key < usize::MAX,
    ensures
        routes_of(clients).contains(route) <==> route == 0 || clients.contains_key(
            (route - 1) as usize,
        ),
{
    let keys = crate::devices::in_order(clients.dom());
    let routes = routes_of(clients);
    crate::devices::lemma_in_order(clients.dom());
    assert(routes[0] == 0);
    if routes.contains(route) && route != 0 {
        let at = choose|at: int| 0 <= at < routes.len() && routes[at] == route;
        assert(keys.contains(keys[at - 1]));
        assert(clients.contains_key(keys[at - 1]));
        assert(routes[at] == keys[at - 1] + 1);
    }
    if route != 0 && clients.contains_key((route - 1) as usize) {
        assert(keys.contains((route - 1) as usize));
        let at = choose|at: int| 0 <= at < keys.len() && keys[at] == (route - 1) as usize;
        assert(routes[at + 1] == route);
    }
}

/// After the routes were stabilized, there is somebody at the current route.
pub proof fn stabilized_routes_are_available(
    devices: Map<usize, Device>,
    clients: Map<usize, Client>,
    router: RouterView,
    log: Seq<Delivery>,
    after: RouterView,
    complete: bool,
)
    requires
        stabilized(devices, clients, router, log, after, complete),
    ensures
        routes_of(clients_after(clients, log)).contains(after.current),
{
    let routes = routes_of(clients_after(clients, log));
    assert(routes[0] == 0);
    if routes_of(clients).contains(router.current) {
        assert(clients_after(clients, log) == clients);
    }
}

/// A takeover that has ended is told apart from a new one that got its number: events of the former
/// change nothing.
pub proof fn reused_numbers_are_told_apart(
    server: ServerView,
    id: usize,
    current: ActivationId,
    stale: ActivationId,
)
    requires
        server.is_current(id, current),
        stale != current,
    ensures
        !server.is_current(id, stale),
{
}

} // verus!
