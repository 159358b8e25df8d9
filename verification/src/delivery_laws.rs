//! What clients and devices are sent.

use tokio::sync::mpsc::Sender;
use vstd::prelude::*;

use crate::channel::{Delivery, SendOutcome};
use crate::event::Event;
use crate::key::Key;
use crate::monitor::ActivationId;
use crate::routing::{ActionView, ReconcileMode, Route, RouterView};
use crate::server::{Device, Message, ServerView};
use crate::slots::Client;
use crate::update::{CommandView, DeviceCommand, Update, UpdateView};

verus! {

/// The updates that a client took, in order, through a queue.
pub open spec fn taken_by(log: Seq<Delivery>, client: usize, queue: Sender<Update>) -> Seq<
    UpdateView,
>
    decreases log.len(),
{
    if log.len() == 0 {
        seq![]
    } else {
        let before = taken_by(log.drop_last(), client, queue);
        match log.last() {
            Delivery::Update { client: to, queue: through, update, outcome } => if to == client
                && through == queue && outcome == SendOutcome::Sent {
                before.push(update)
            } else {
                before
            },
            _ => before,
        }
    }
}

/// The commands that a device was handed, in order, through a queue.
pub open spec fn handed_to(log: Seq<Delivery>, device: usize, task: Sender<DeviceCommand>) -> Seq<
    CommandView,
>
    decreases log.len(),
{
    if log.len() == 0 {
        seq![]
    } else {
        let before = handed_to(log.drop_last(), device, task);
        match log.last() {
            Delivery::Command { device: to, task: through, command, .. } => if to == device
                && through == task {
                before.push(command)
            } else {
                before
            },
            _ => before,
        }
    }
}

/// The updates of a list of messages that are for a client.
pub open spec fn updates_for(plan: Seq<Message>, client: usize) -> Seq<UpdateView>
    decreases plan.len(),
{
    if plan.len() == 0 {
        seq![]
    } else {
        let before = updates_for(plan.drop_last(), client);
        match plan.last() {
            Message::Update { client: to, update } => if to == client {
                before.push(update)
            } else {
                before
            },
            _ => before,
        }
    }
}

/// The commands of a list of messages that are for a device.
pub open spec fn commands_for(plan: Seq<Message>, device: usize) -> Seq<CommandView>
    decreases plan.len(),
{
    if plan.len() == 0 {
        seq![]
    } else {
        let before = commands_for(plan.drop_last(), device);
        match plan.last() {
            Message::Command { device: to, command } => if to == device {
                before.push(command)
            } else {
                before
            },
            _ => before,
        }
    }
}

/// What the actions of a router say to the client of a route.
pub open spec fn told_on(actions: Seq<ActionView>, route: Route) -> Seq<UpdateView>
    decreases actions.len(),
{
    if actions.len() == 0 {
        seq![]
    } else {
        let before = told_on(actions.drop_last(), route);
        match actions.last() {
            ActionView::Events { route: to, device_id, events } => if to == route {
                before.push(UpdateView::Events { id: device_id, events })
            } else {
                before
            },
            ActionView::SetKeyState { route: to, device_id, pressed_keys } => if to == route {
                before.push(UpdateView::SetKeyState { id: device_id, pressed_keys })
            } else {
                before
            },
        }
    }
}

/// What the actions of a router say to a device of this machine.
pub open spec fn told_here(actions: Seq<ActionView>, device: usize) -> Seq<CommandView>
    decreases actions.len(),
{
    if actions.len() == 0 {
        seq![]
    } else {
        let before = told_here(actions.drop_last(), device);
        match actions.last() {
            ActionView::Events { route, device_id, events } => if route == 0 && device_id == device {
                before.push(CommandView::Events(events))
            } else {
                before
            },
            ActionView::SetKeyState { route, device_id, pressed_keys } => if route == 0 && device_id
                == device {
                before.push(CommandView::SetKeyState(pressed_keys))
            } else {
                before
            },
        }
    }
}

/// A client is lost with an update that its queue does not take, full or closed as it is, and with a
/// look at a closed queue, and with nothing else.
pub proof fn clients_are_lost_with_their_queue(delivery: Delivery, client: usize)
    ensures
        crate::server::lost_client(delivery) == Some(client) <==> match delivery {
            Delivery::Update { client: to, outcome, .. } => to == client && (outcome
                == SendOutcome::Full || outcome == SendOutcome::Closed),
            Delivery::Probe { client: to, closed, .. } => to == client && closed,
            Delivery::Command { .. } => false,
        },
{
}

/// A client that is left took every update that was for it, in order, and nothing else.
pub proof fn clients_take_what_is_for_them(
    devices: Map<usize, Device>,
    clients: Map<usize, Client>,
    plan: Seq<Message>,
    log: Seq<Delivery>,
    client: usize,
)
    requires
        crate::server::follows(devices, clients, plan, log),
        crate::server::clients_after(clients, log).contains_key(client),
    ensures
        taken_by(log, client, clients[client].0) == updates_for(plan, client),
    decreases plan.len(),
{
    if plan.len() > 0 {
        let shorter = plan.drop_last();
        crate::server::only_failing_clients_are_dropped(clients, log, client);
        if log.len() > 0 && crate::server::carries(
            devices,
            crate::server::clients_after(clients, log.drop_last()),
            log.last(),
            plan.last(),
        ) && crate::server::follows(devices, clients, shorter, log.drop_last()) {
            crate::server::only_failing_clients_are_dropped(clients, log.drop_last(), client);
            clients_take_what_is_for_them(devices, clients, shorter, log.drop_last(), client);
            assert(crate::server::lost_client(log[log.len() - 1]) != Some(client));
        } else {
            clients_take_what_is_for_them(devices, clients, shorter, log, client);
        }
    }
}

/// A device of this machine is handed every command that is for it, in order, and nothing else.
pub proof fn devices_are_handed_what_is_for_them(
    devices: Map<usize, Device>,
    clients: Map<usize, Client>,
    plan: Seq<Message>,
    log: Seq<Delivery>,
    device: usize,
)
    requires
        crate::server::follows(devices, clients, plan, log),
        devices.contains_key(device),
    ensures
        handed_to(log, device, devices[device].sender) == commands_for(plan, device),
    decreases plan.len(),
{
    if plan.len() > 0 {
        let shorter = plan.drop_last();
        if log.len() > 0 && crate::server::carries(
            devices,
            crate::server::clients_after(clients, log.drop_last()),
            log.last(),
            plan.last(),
        ) && crate::server::follows(devices, clients, shorter, log.drop_last()) {
            devices_are_handed_what_is_for_them(devices, clients, shorter, log.drop_last(), device);
        } else {
            devices_are_handed_what_is_for_them(devices, clients, shorter, log, device);
        }
    }
}

/// What a router decides for a route is said to the client of that route, and what it decides for
/// this machine is said to the device that it is about. Nothing is changed on the way.
pub proof fn decisions_are_sent_as_they_are(
    actions: Seq<ActionView>,
    client: usize,
    device: usize,
)
    requires
        client < usize::MAX,
    ensures
        updates_for(crate::server::messages_of(actions), client) == told_on(
            actions,
            (client + 1) as usize,
        ),
        commands_for(crate::server::messages_of(actions), device) == told_here(actions, device),
    decreases actions.len(),
{
    let plan = crate::server::messages_of(actions);
    if actions.len() > 0 {
        let shorter = actions.drop_last();
        assert(plan.drop_last() =~= crate::server::messages_of(shorter));
        decisions_are_sent_as_they_are(shorter, client, device);
    }
}

proof fn lemma_taken_in_turn(
    first: Seq<Delivery>,
    second: Seq<Delivery>,
    client: usize,
    queue: Sender<Update>,
)
    ensures
        taken_by(first + second, client, queue) == taken_by(first, client, queue) + taken_by(
            second,
            client,
            queue,
        ),
    decreases second.len(),
{
    if second.len() == 0 {
        assert(first + second =~= first);
        assert(taken_by(first, client, queue) + taken_by(second, client, queue) =~= taken_by(
            first,
            client,
            queue,
        ));
    } else {
        let all = first + second;
        assert(all.drop_last() =~= first + second.drop_last());
        lemma_taken_in_turn(first, second.drop_last(), client, queue);
        assert(taken_by(all, client, queue) =~= taken_by(first, client, queue) + taken_by(
            second,
            client,
            queue,
        ));
    }
}

proof fn lemma_updates_for_all(keys: Seq<usize>, update: UpdateView, client: usize)
    requires
        crate::devices::ascending(keys),
    ensures
        updates_for(crate::server::update_for_all(keys, update), client) == if keys.contains(
            client,
        ) {
            seq![update]
        } else {
            Seq::<UpdateView>::empty()
        },
    decreases keys.len(),
{
    let plan = crate::server::update_for_all(keys, update);
    if keys.len() > 0 {
        let shorter = keys.drop_last();
        assert(plan.drop_last() =~= crate::server::update_for_all(shorter, update));
        lemma_updates_for_all(shorter, update, client);
        lemma_listed_before_last(keys, client);
        if keys.last() == client {
            assert(Seq::<UpdateView>::empty().push(update) =~= seq![update]);
        }
    }
}

proof fn lemma_listed_before_last(keys: Seq<usize>, key: usize)
    requires
        keys.len() > 0,
        crate::devices::ascending(keys),
    ensures
        crate::devices::ascending(keys.drop_last()),
        keys.contains(key) == (keys.drop_last().contains(key) || keys.last() == key),
        keys.drop_last().contains(key) ==> keys.last() != key,
{
    let shorter = keys.drop_last();
    assert forall|left: int, right: int| 0 <= left < right < shorter.len() implies shorter[left]
        < shorter[right] by {
        assert(keys[left] < keys[right]);
    }
    if shorter.contains(key) {
        let at = choose|at: int| 0 <= at < shorter.len() && shorter[at] == key;
        assert(keys[at] == key);
        assert(keys[at] < keys[keys.len() - 1]);
    }
    if keys.last() == key {
        assert(keys[keys.len() - 1] == key);
    }
    if keys.contains(key) && keys.last() != key {
        let at = choose|at: int| 0 <= at < keys.len() && keys[at] == key;
        assert(shorter[at] == key);
    }
}

proof fn lemma_reset_for_all(keys: Seq<usize>, id: usize, device: Device, client: usize)
    requires
        crate::devices::ascending(keys),
    ensures
        updates_for(crate::server::reset_for_all(keys, id, device), client) == if keys.contains(
            client,
        ) {
            seq![UpdateView::DestroyDevice { id }, crate::server::creation(id, device)]
        } else {
            Seq::<UpdateView>::empty()
        },
    decreases keys.len(),
{
    let plan = crate::server::reset_for_all(keys, id, device);
    if keys.len() > 0 {
        let shorter = keys.drop_last();
        let before = crate::server::reset_for_all(shorter, id, device);
        let both = crate::server::reset_messages(keys.last(), id, device);
        lemma_reset_for_all(shorter, id, device, client);
        lemma_listed_before_last(keys, client);
        assert(plan.drop_last() =~= before.push(both[0]));
        assert(plan.drop_last().drop_last() =~= before);
        assert(plan.last() == both[1]);
        assert(plan.drop_last().last() == both[0]);
        assert(updates_for(plan.drop_last(), client) == if keys.last() == client {
            updates_for(before, client).push(UpdateView::DestroyDevice { id })
        } else {
            updates_for(before, client)
        });
        if keys.last() == client {
            assert(updates_for(plan, client) =~= seq![
                UpdateView::DestroyDevice { id },
                crate::server::creation(id, device),
            ]);
        }
    }
}

/// The update that makes a device known says all that there is to say of it.
pub proof fn devices_are_described_in_full(id: usize, device: Device)
    ensures
        crate::server::creation(id, device) matches UpdateView::CreateDevice {
            id: number,
            name,
            version,
            vendor,
            product,
            rel,
            abs,
            keys,
            delay,
            period,
        } && number == id && name == device.name@ && version == device.version && vendor
            == device.vendor && product == device.product && rel == device.rel@ && abs
            == device.abs@ && keys == device.keys@ && delay == device.delay && period
            == device.period,
{
}

proof fn lemma_order(server: ServerView, client: usize)
    requires
        server.clients.dom().finite(),
    ensures
        crate::devices::ascending(server.client_order()),
        server.client_order().contains(client) == server.clients.contains_key(client),
{
    crate::devices::lemma_in_order(server.clients.dom());
}

/// A client that is left after a device was removed was told so, once, and of nothing else. The
/// device is gone from the table, and the others are not.
pub proof fn clients_are_told_of_removals(
    before: ServerView,
    id: usize,
    after: ServerView,
    client: usize,
    other: usize,
)
    requires
        crate::server::is_removed(before, id, after),
        before.clients.dom().finite(),
    ensures
        after.clients.contains_key(client) ==> before.clients.contains_key(client) && taken_by(
            after.since(before),
            client,
            before.clients[client].0,
        ) == seq![UpdateView::DestroyDevice { id }],
        !after.devices.contains_key(id),
        other != id ==> after.devices.contains_key(other) == before.devices.contains_key(other),
        other != id && after.devices.contains_key(other) ==> after.devices[other]
            == before.devices[other],
{
    let log = after.since(before);
    if after.clients.contains_key(client) {
        let plan = crate::server::update_for_all(
            before.client_order(),
            UpdateView::DestroyDevice { id },
        );
        crate::server::only_failing_clients_are_dropped(before.clients, log, client);
        clients_take_what_is_for_them(before.devices, before.clients, plan, log, client);
        lemma_order(before, client);
        lemma_updates_for_all(before.client_order(), UpdateView::DestroyDevice { id }, client);
    }
}

/// A client that is left after the events of a device were lost had the device removed and made
/// anew, in this order, and was told of nothing else.
pub proof fn clients_get_lost_devices_anew(
    before: ServerView,
    id: usize,
    after: ServerView,
    client: usize,
)
    requires
        crate::server::is_renewed(before, id, after),
        before.clients.dom().finite(),
        after.clients.contains_key(client),
    ensures
        before.clients.contains_key(client),
        taken_by(after.since(before), client, before.clients[client].0) == seq![
            UpdateView::DestroyDevice { id },
            crate::server::creation(id, before.devices[id]),
        ],
{
    let log = after.since(before);
    let plan = crate::server::reset_for_all(before.client_order(), id, before.devices[id]);
    crate::server::only_failing_clients_are_dropped(before.clients, log, client);
    clients_take_what_is_for_them(before.devices, before.clients, plan, log, client);
    lemma_order(before, client);
    lemma_reset_for_all(before.client_order(), id, before.devices[id], client);
}

/// A client that is left after a device was added was first of all told of it. The device has the
/// number that was next, and the others stay.
pub proof fn clients_are_told_of_new_devices(
    before: ServerView,
    device: Device,
    pressed: Set<Key>,
    after: ServerView,
    complete: bool,
    client: usize,
)
    requires
        crate::server::is_activated(before, device, pressed, after, complete),
        before.clients.dom().finite(),
        after.clients.contains_key(client),
    ensures
        before.clients.contains_key(client),
        ({
            let taken = taken_by(after.since(before), client, before.clients[client].0);
            taken.len() > 0 && taken[0] == crate::server::creation(before.next_id, device)
        }),
        after.devices == before.devices.insert(before.next_id, device),
{
    let log = after.since(before);
    let id = before.next_id;
    let plan = crate::server::update_for_all(
        before.client_order(),
        crate::server::creation(id, device),
    );
    let middle = choose|middle: int|
        0 <= middle <= log.len() && crate::server::follows(
            before.devices,
            before.clients,
            plan,
            #[trigger] log.take(middle),
        );
    let first = log.take(middle);
    let second = log.skip(middle);
    assert(log =~= first + second);
    crate::server::only_failing_clients_are_dropped(before.clients, log, client);
    crate::server::only_failing_clients_are_dropped(before.clients, first, client);
    assert forall|at: int| 0 <= at < first.len() implies crate::server::lost_client(
        #[trigger] first[at],
    ) != Some(client) by {
        assert(first[at] == log[at]);
    }
    clients_take_what_is_for_them(before.devices, before.clients, plan, first, client);
    lemma_order(before, client);
    lemma_updates_for_all(
        before.client_order(),
        crate::server::creation(id, device),
        client,
    );
    lemma_taken_in_turn(first, second, client, before.clients[client].0);
}

proof fn lemma_introduced(client: usize, ids: Seq<usize>, devices: Map<usize, Device>)
    ensures
        updates_for(
            ids.map_values(
                |id: usize|
                    Message::Update {
                        client,
                        update: crate::server::creation(id, devices[id]),
                    },
            ),
            client,
        ) == ids.map_values(|id: usize| crate::server::creation(id, devices[id])),
    decreases ids.len(),
{
    let plan = ids.map_values(
        |id: usize| Message::Update { client, update: crate::server::creation(id, devices[id]) },
    );
    let updates = ids.map_values(|id: usize| crate::server::creation(id, devices[id]));
    if ids.len() > 0 {
        let shorter = ids.drop_last();
        lemma_introduced(client, shorter, devices);
        assert(plan.drop_last() =~= shorter.map_values(
            |id: usize|
                Message::Update { client, update: crate::server::creation(id, devices[id]) },
        ));
        assert(updates =~= shorter.map_values(
            |id: usize| crate::server::creation(id, devices[id]),
        ).push(crate::server::creation(ids.last(), devices[ids.last()])));
    } else {
        assert(updates =~= Seq::<UpdateView>::empty());
    }
}

/// A client that joins and is left was told of every device first of all, in the order of their
/// numbers, once each.
pub proof fn new_clients_are_told_of_all_devices(
    before: ServerView,
    key: usize,
    client: Client,
    after: ServerView,
    complete: bool,
)
    requires
        crate::server::has_joined(before, key, client, after, complete),
        before.devices.dom().finite(),
        after.clients.contains_key(key),
    ensures
        after.clients[key] == client,
        ({
            let ids = crate::devices::in_order(before.devices.dom());
            let taken = taken_by(after.since(before), key, client.0);
            &&& crate::devices::ascending(ids)
            &&& forall|id: usize| #[trigger] ids.contains(id) <==> before.devices.contains_key(id)
            &&& taken.len() >= ids.len()
            &&& forall|at: int|
                0 <= at < ids.len() ==> #[trigger] taken[at] == crate::server::creation(
                    ids[at],
                    before.devices[ids[at]],
                )
        }),
        after.devices == before.devices,
{
    let log = after.since(before);
    let clients = before.clients.insert(key, client);
    let ids = crate::devices::in_order(before.devices.dom());
    let plan = crate::server::introduction(key, before.devices);
    let middle = choose|middle: int|
        0 <= middle <= log.len() && crate::server::follows(
            before.devices,
            clients,
            plan,
            #[trigger] log.take(middle),
        );
    let first = log.take(middle);
    let second = log.skip(middle);
    assert(log =~= first + second);
    crate::devices::lemma_in_order(before.devices.dom());
    crate::server::only_failing_clients_are_dropped(clients, log, key);
    crate::server::only_failing_clients_are_dropped(clients, first, key);
    assert forall|at: int| 0 <= at < first.len() implies crate::server::lost_client(
        #[trigger] first[at],
    ) != Some(key) by {
        assert(first[at] == log[at]);
    }
    clients_take_what_is_for_them(before.devices, clients, plan, first, key);
    lemma_introduced(key, ids, before.devices);
    assert(plan =~= ids.map_values(
        |id: usize|
            Message::Update {
                client: key,
                update: crate::server::creation(id, before.devices[id]),
            },
    ));
    lemma_taken_in_turn(first, second, key, client.0);
}

proof fn lemma_still_there(clients: Map<usize, Client>, log: Seq<Delivery>, count: int)
    requires
        0 <= count <= log.len(),
        crate::server::clients_after(clients, log) == clients,
    ensures
        crate::server::clients_after(clients, log.take(count)) == clients,
{
    let first = log.take(count);
    let left = crate::server::clients_after(clients, first);
    assert forall|key: usize| #[trigger] left.contains_key(key) <==> clients.contains_key(key) by {
        crate::server::only_failing_clients_are_dropped(clients, first, key);
        crate::server::only_failing_clients_are_dropped(clients, log, key);
        if clients.contains_key(key) {
            assert forall|at: int| 0 <= at < first.len() implies crate::server::lost_client(
                #[trigger] first[at],
            ) != Some(key) by {
                assert(first[at] == log[at]);
            }
        }
    }
    assert forall|key: usize| left.contains_key(key) implies #[trigger] left[key]
        == clients[key] by {
        crate::server::only_failing_clients_are_dropped(clients, first, key);
    }
    assert(left =~= clients);
}

/// What a router decides reaches the outputs whole: as long as no client is lost and no queue of a
/// device is full, every client takes exactly what was decided for its route, in order, and every
/// device of this machine is handed exactly what was decided for it here.
pub proof fn decisions_reach_the_outputs(
    before: ServerView,
    router: RouterView,
    actions: Seq<ActionView>,
    after: ServerView,
    client: usize,
    device: usize,
)
    requires
        crate::server::is_routed(before, router, actions, after, true),
        after.clients == before.clients,
        crate::server::routes_of(before.clients).contains(router.current),
    ensures
        before.clients.contains_key(client) && client < usize::MAX ==> taken_by(
            after.since(before),
            client,
            before.clients[client].0,
        ) == told_on(actions, (client + 1) as usize),
        before.devices.contains_key(device) ==> handed_to(
            after.since(before),
            device,
            before.devices[device].sender,
        ) == told_here(actions, device),
        after.router == router,
        after.devices == before.devices,
{
    let log = after.since(before);
    let plan = crate::server::messages_of(actions);
    let middle = choose|middle: int|
        0 <= middle <= log.len() && crate::server::dispatched(
            before.devices,
            before.clients,
            plan,
            #[trigger] log.take(middle),
            true,
        ) && crate::server::stabilized(
            before.devices,
            crate::server::clients_after(before.clients, log.take(middle)),
            router,
            log.skip(middle),
            after.router,
            true,
        );
    lemma_still_there(before.clients, log, middle);
    assert(log.take(middle) =~= log);
    if before.clients.contains_key(client) && client < usize::MAX {
        clients_take_what_is_for_them(before.devices, before.clients, plan, log, client);
        decisions_are_sent_as_they_are(actions, client, device);
    }
    if before.devices.contains_key(device) {
        devices_are_handed_what_is_for_them(before.devices, before.clients, plan, log, device);
        decisions_are_sent_as_they_are(actions, 0, device);
    }
}

/// A frame of a device is routed by what the router makes of it for the routes to this machine and
/// to the clients, and the keys of a device that are taken over anew are shown in the same way.
pub proof fn frames_are_routed_to_the_clients_there_are(
    before: ServerView,
    id: usize,
    events: Seq<Event>,
    pressed: Set<Key>,
    after: ServerView,
    complete: bool,
)
    ensures
        crate::server::is_frame_routed(before, id, events, after, complete)
            == crate::server::is_routed(
            before,
            before.router.after_frame(id, events, crate::server::routes_of(before.clients)),
            before.router.frame_actions(id, events, crate::server::routes_of(before.clients)),
            after,
            complete,
        ),
        crate::server::is_device_reset(before, id, pressed, after, complete)
            == crate::server::is_routed(
            before,
            before.router.with_device_reset(id, pressed),
            before.router.with_device_reset(id, pressed).device_reconciled(
                id,
                crate::server::routes_of(before.clients),
                ReconcileMode::Recovery,
            ),
            after,
            complete,
        ),
{
}

/// A number stands for the device of a takeover exactly if the device with that number is there and
/// is that takeover.
pub proof fn takeovers_have_their_numbers(
    server: ServerView,
    id: usize,
    activation_id: ActivationId,
)
    ensures
        server.is_current(id, activation_id) == (server.devices.contains_key(id)
            && server.devices[id].activation_id == activation_id),
{
}

/// Sending goes on until a command finds the queue of its device full, and only that ends it. A
/// queue that is closed does not.
pub proof fn only_full_queues_stop_the_sending(
    devices: Map<usize, Device>,
    clients: Map<usize, Client>,
    plan: Seq<Message>,
    log: Seq<Delivery>,
    complete: bool,
)
    requires
        crate::server::dispatched(devices, clients, plan, log, complete),
    ensures
        forall|at: int|
            0 <= at < log.len() ==> ((#[trigger] log[at]) matches Delivery::Command {
                outcome: SendOutcome::Full,
                ..
            }) == (!complete && at == log.len() - 1),
        !complete ==> log.len() > 0,
        complete ==> crate::server::follows(devices, clients, plan, log),
{
}

/// Devices and clients are gone through by their numbers, from the lowest to the highest, each once.
pub proof fn numbers_are_gone_through_in_order(ids: Set<usize>, id: usize)
    requires
        ids.finite(),
    ensures
        ids.contains(id) <==> exists|at: int|
            0 <= at < crate::devices::in_order(ids).len() && #[trigger] crate::devices::in_order(
                ids,
            )[at] == id,
        forall|left: int, right: int|
            0 <= left < right < crate::devices::in_order(ids).len()
                ==> #[trigger] crate::devices::in_order(ids)[left] < #[trigger] crate::devices::in_order(
                ids,
            )[right],
{
    crate::devices::lemma_in_order(ids);
    let listed = crate::devices::in_order(ids);
    assert(listed.contains(id) == ids.contains(id));
}

} // verus!
