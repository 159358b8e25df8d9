//! What the server promises of the keys on the outputs, by what it sent.

use vstd::prelude::*;

use crate::channel::{Delivery, SendOutcome};
use crate::event::Event;
use crate::key::Key;
use crate::routing::{ActionView, FrameView, ReconcileMode, Route, RouterView};
use crate::routing_laws::Outputs;
use crate::server::{Device, Message, ServerView};
use crate::slots::Client;
use crate::update::{CommandView, UpdateView};

verus! {

/// The outputs after a route has gone.
pub open spec fn without_route(outputs: Outputs, route: Route) -> Outputs {
    outputs.filter(|entry: (Route, usize, Key)| entry.0 != route)
}

/// The outputs after the virtual device of this machine that stands in for a device has gone.
pub open spec fn without_local(outputs: Outputs, device: usize) -> Outputs {
    outputs.filter(|entry: (Route, usize, Key)| entry.0 != 0 || entry.1 != device)
}

/// The outputs in which a device on a route has replayed some events.
pub open spec fn replayed(
    outputs: Outputs,
    route: Route,
    device: usize,
    events: Seq<Event>,
) -> Outputs {
    crate::routing_laws::with_keys(
        outputs,
        route,
        device,
        crate::event::keys_after(
            crate::routing_laws::down_on(outputs, route, device),
            events,
        ),
    )
}

/// The outputs after a delivery. A client that does not take an update is dropped, and its keys with
/// it. A device whose task does not listen any more has no virtual device.
pub open spec fn shown_after(outputs: Outputs, delivery: Delivery) -> Outputs {
    match delivery {
        Delivery::Update { client, update, outcome, .. } => {
            let route = (client + 1) as usize;
            if outcome != SendOutcome::Sent {
                without_route(outputs, route)
            } else {
                match update {
                    UpdateView::CreateDevice { id, .. } => crate::routing_laws::with_keys(
                        outputs,
                        route,
                        id,
                        Set::empty(),
                    ),
                    UpdateView::DestroyDevice { id } => crate::routing_laws::with_keys(
                        outputs,
                        route,
                        id,
                        Set::empty(),
                    ),
                    UpdateView::Events { id, events } => replayed(outputs, route, id, events),
                    UpdateView::SetKeyState { id, pressed_keys } => crate::routing_laws::with_keys(
                        outputs,
                        route,
                        id,
                        pressed_keys,
                    ),
                    UpdateView::Ping => outputs,
                }
            }
        },
        Delivery::Command { device, command, outcome, .. } => match outcome {
            SendOutcome::Sent => match command {
                CommandView::Events(events) => replayed(outputs, 0, device, events),
                CommandView::SetKeyState(keys) => crate::routing_laws::with_keys(
                    outputs,
                    0,
                    device,
                    keys,
                ),
                CommandView::Reset => without_local(outputs, device),
            },
            SendOutcome::Full => outputs,
            SendOutcome::Closed => without_local(outputs, device),
        },
        Delivery::Probe { client, closed, .. } => if closed {
            without_route(outputs, (client + 1) as usize)
        } else {
            outputs
        },
    }
}

/// The outputs after some deliveries, one after the other.
pub open spec fn shown_after_all(outputs: Outputs, log: Seq<Delivery>) -> Outputs
    decreases log.len(),
{
    if log.len() == 0 {
        outputs
    } else {
        shown_after(shown_after_all(outputs, log.drop_last()), log.last())
    }
}

/// Whether keys are down only on this machine and on clients.
pub open spec fn reaches(clients: Map<usize, Client>, outputs: Outputs) -> bool {
    forall|route: Route, device: usize, key: Key| #[trigger]
        outputs.contains((route, device, key)) ==> route == 0 || clients.contains_key(
            (route - 1) as usize,
        )
}

/// Whether keys are down on this machine only for devices that are there.
pub open spec fn is_local(devices: Map<usize, Device>, outputs: Outputs) -> bool {
    forall|device: usize, key: Key| #[trigger]
        outputs.contains((0, device, key)) ==> devices.contains_key(device)
}

/// Whether the clients are finitely many, and there is a route to each.
pub open spec fn numbered(clients: Map<usize, Client>) -> bool {
    &&& clients.dom().finite()
    &&& forall|key: usize| #[trigger] clients.contains_key(key) ==> key < usize::MAX
}

/// Whether the keys that are down on the outputs are in step with the server: the router will take
/// all of them back, and they are on outputs that are there.
pub open spec fn in_step(server: ServerView, outputs: Outputs) -> bool {
    &&& server.router.valid()
    &&& crate::routing_laws::consistent(server.router, outputs)
    &&& reaches(server.clients, outputs)
    &&& server.router.physical.dom().subset_of(server.devices.dom())
    &&& numbered(server.clients)
}

/// Whether there is somebody at the current route.
pub open spec fn is_available(server: ServerView) -> bool {
    crate::server::routes_of(server.clients).contains(server.router.current)
}

proof fn lemma_smaller(router: RouterView, smaller: Outputs, larger: Outputs)
    requires
        smaller.subset_of(larger),
        crate::routing_laws::consistent(router, larger),
    ensures
        crate::routing_laws::consistent(router, smaller),
{
    assert forall|route: Route, device: usize, key: Key| #[trigger]
        smaller.contains((route, device, key)) implies larger.contains((route, device, key)) by {}
}

proof fn lemma_keys_after_grow(smaller: Set<Key>, larger: Set<Key>, events: Seq<Event>)
    requires
        smaller.subset_of(larger),
    ensures
        crate::event::keys_after(smaller, events).subset_of(
            crate::event::keys_after(larger, events),
        ),
    decreases events.len(),
{
    if events.len() > 0 {
        lemma_keys_after_grow(smaller, larger, events.drop_last());
    }
}

/// A delivery shows no more than the action that it is for.
proof fn lemma_delivered(
    devices: Map<usize, Device>,
    clients: Map<usize, Client>,
    delivery: Delivery,
    action: ActionView,
    shown: Outputs,
    target: Outputs,
)
    requires
        crate::server::carries(devices, clients, delivery, crate::server::message_of(action)),
        !crate::server::overflows(delivery),
        shown.subset_of(target),
        reaches(clients, shown),
        is_local(devices, shown),
    ensures
        shown_after(shown, delivery).subset_of(crate::routing_laws::applied(target, action)),
        reaches(
            crate::server::clients_after(clients, seq![delivery]),
            shown_after(shown, delivery),
        ),
        is_local(devices, shown_after(shown, delivery)),
{
    let after = shown_after(shown, delivery);
    let goal = crate::routing_laws::applied(target, action);
    let log = seq![delivery];
    assert(log.drop_last() =~= Seq::<Delivery>::empty());
    assert(log.last() == delivery);
    assert(crate::server::clients_after(clients, log.drop_last()) == clients);
    let (route, device) = match action {
        ActionView::Events { route, device_id, .. } => (route, device_id),
        ActionView::SetKeyState { route, device_id, .. } => (route, device_id),
    };
    if let ActionView::Events { events, .. } = action {
        lemma_keys_after_grow(
            crate::routing_laws::down_on(shown, route, device),
            crate::routing_laws::down_on(target, route, device),
            events,
        );
    }
    assert forall|entry: (Route, usize, Key)| #[trigger] after.contains(entry) implies goal.contains(
        entry,
    ) by {
        if entry.0 == route && entry.1 == device {
        } else {
            assert(shown.contains(entry));
        }
    }
    assert forall|other: Route, id: usize, key: Key| #[trigger]
        after.contains((other, id, key)) implies other == 0 || crate::server::clients_after(
        clients,
        log,
    ).contains_key((other - 1) as usize) by {
        if other != route || id != device {
            assert(shown.contains((other, id, key)));
        }
    }
    assert forall|id: usize, key: Key| #[trigger]
        after.contains((0, id, key)) implies devices.contains_key(id) by {
        if route != 0 || id != device {
            assert(shown.contains((0, id, key)));
        }
    }
}

/// Deliveries show no more than the actions that they are for.
proof fn lemma_all_delivered(
    devices: Map<usize, Device>,
    clients: Map<usize, Client>,
    actions: Seq<ActionView>,
    log: Seq<Delivery>,
    shown: Outputs,
    target: Outputs,
)
    requires
        crate::server::follows(devices, clients, crate::server::messages_of(actions), log),
        forall|at: int| 0 <= at < log.len() ==> !crate::server::overflows(#[trigger] log[at]),
        shown.subset_of(target),
        reaches(clients, shown),
        is_local(devices, shown),
    ensures
        shown_after_all(shown, log).subset_of(crate::routing_laws::applied_all(target, actions)),
        reaches(crate::server::clients_after(clients, log), shown_after_all(shown, log)),
        is_local(devices, shown_after_all(shown, log)),
    decreases actions.len(),
{
    let plan = crate::server::messages_of(actions);
    if actions.len() > 0 {
        let fewer = actions.drop_last();
        let action = actions.last();
        let message = crate::server::message_of(action);
        assert(plan.drop_last() =~= crate::server::messages_of(fewer));
        assert(plan.last() == message);
        if log.len() > 0 && crate::server::carries(
            devices,
            crate::server::clients_after(clients, log.drop_last()),
            log.last(),
            message,
        ) && crate::server::follows(devices, clients, plan.drop_last(), log.drop_last()) {
            let shorter = log.drop_last();
            assert forall|at: int| 0 <= at < shorter.len() implies !crate::server::overflows(
                #[trigger] shorter[at],
            ) by {
                assert(shorter[at] == log[at]);
            }
            assert(!crate::server::overflows(log[log.len() - 1]));
            lemma_all_delivered(devices, clients, fewer, shorter, shown, target);
            let left = crate::server::clients_after(clients, shorter);
            lemma_delivered(
                devices,
                left,
                log.last(),
                action,
                shown_after_all(shown, shorter),
                crate::routing_laws::applied_all(target, fewer),
            );
            crate::server::lemma_clients_after_concat(clients, shorter, seq![log.last()]);
            assert(shorter + seq![log.last()] =~= log);
        } else {
            lemma_all_delivered(devices, clients, fewer, log, shown, target);
            let now = shown_after_all(shown, log);
            let before = crate::routing_laws::applied_all(target, fewer);
            let after = crate::routing_laws::applied(before, action);
            let left = crate::server::clients_after(clients, log);
            assert(!crate::server::is_deliverable(devices, left, message));
            assert forall|entry: (Route, usize, Key)| #[trigger] now.contains(
                entry,
            ) implies after.contains(entry) by {
                assert(before.contains(entry));
                assert(now.contains((entry.0, entry.1, entry.2)));
            }
        }
    }
}

/// Whether a message lets keys go at most.
pub open spec fn is_quiet(message: Message) -> bool {
    message matches Message::Update { update, .. } && (update is CreateDevice
        || update is DestroyDevice)
}

/// Messages that let keys go at most leave no more keys down.
proof fn lemma_quiet(
    devices: Map<usize, Device>,
    clients: Map<usize, Client>,
    plan: Seq<Message>,
    log: Seq<Delivery>,
    shown: Outputs,
)
    requires
        crate::server::follows(devices, clients, plan, log),
        forall|at: int| 0 <= at < plan.len() ==> is_quiet(#[trigger] plan[at]),
        reaches(clients, shown),
        numbered(clients),
    ensures
        shown_after_all(shown, log).subset_of(shown),
        reaches(crate::server::clients_after(clients, log), shown_after_all(shown, log)),
        numbered(crate::server::clients_after(clients, log)),
    decreases plan.len(),
{
    if plan.len() > 0 {
        let fewer = plan.drop_last();
        assert(is_quiet(plan[plan.len() - 1]));
        assert forall|at: int| 0 <= at < fewer.len() implies is_quiet(#[trigger] fewer[at]) by {
            assert(fewer[at] == plan[at]);
        }
        if log.len() > 0 && crate::server::carries(
            devices,
            crate::server::clients_after(clients, log.drop_last()),
            log.last(),
            plan.last(),
        ) && crate::server::follows(devices, clients, fewer, log.drop_last()) {
            let shorter = log.drop_last();
            lemma_quiet(devices, clients, fewer, shorter, shown);
            let before = shown_after_all(shown, shorter);
            let after = shown_after_all(shown, log);
            let left = crate::server::clients_after(clients, log);
            assert forall|entry: (Route, usize, Key)| #[trigger] after.contains(
                entry,
            ) implies before.contains(entry) by {}
            assert forall|route: Route, device: usize, key: Key| #[trigger]
                after.contains((route, device, key)) implies route == 0 || left.contains_key(
                (route - 1) as usize,
            ) by {
                assert(before.contains((route, device, key)));
            }
        } else {
            lemma_quiet(devices, clients, fewer, log, shown);
        }
    }
}

/// Looks at queues leave no more keys down.
proof fn lemma_looks(clients: Map<usize, Client>, log: Seq<Delivery>, shown: Outputs)
    requires
        forall|at: int|
            0 <= at < log.len() ==> ((#[trigger] log[at]) matches Delivery::Probe { client, .. }
                && client < usize::MAX),
        reaches(clients, shown),
        numbered(clients),
    ensures
        shown_after_all(shown, log).subset_of(shown),
        reaches(crate::server::clients_after(clients, log), shown_after_all(shown, log)),
        numbered(crate::server::clients_after(clients, log)),
    decreases log.len(),
{
    if log.len() > 0 {
        let shorter = log.drop_last();
        assert forall|at: int| 0 <= at < shorter.len() implies ((
        #[trigger] shorter[at]) matches Delivery::Probe { client, .. } && client < usize::MAX) by {
            assert(shorter[at] == log[at]);
        }
        assert(log[log.len() - 1] is Probe);
        lemma_looks(clients, shorter, shown);
        let before = shown_after_all(shown, shorter);
        let after = shown_after_all(shown, log);
        let left = crate::server::clients_after(clients, log);
        assert forall|entry: (Route, usize, Key)| #[trigger] after.contains(
            entry,
        ) implies before.contains(entry) by {}
        assert forall|route: Route, device: usize, key: Key| #[trigger]
            after.contains((route, device, key)) implies route == 0 || left.contains_key(
            (route - 1) as usize,
        ) by {
            assert(before.contains((route, device, key)));
        }
    }
}

proof fn lemma_shown_in_turn(outputs: Outputs, first: Seq<Delivery>, second: Seq<Delivery>)
    ensures
        shown_after_all(outputs, first + second) == shown_after_all(
            shown_after_all(outputs, first),
            second,
        ),
    decreases second.len(),
{
    if second.len() == 0 {
        assert(first + second =~= first);
    } else {
        let all = first + second;
        assert(all.drop_last() =~= first + second.drop_last());
        assert(all.last() == second.last());
        lemma_shown_in_turn(outputs, first, second.drop_last());
    }
}

proof fn lemma_still_numbered(clients: Map<usize, Client>, log: Seq<Delivery>)
    requires
        numbered(clients),
    ensures
        numbered(crate::server::clients_after(clients, log)),
    decreases log.len(),
{
    if log.len() > 0 {
        lemma_still_numbered(clients, log.drop_last());
    }
}

/// Keys that are down are on routes that are there.
proof fn lemma_on_routes(clients: Map<usize, Client>, outputs: Outputs)
    requires
        reaches(clients, outputs),
        numbered(clients),
    ensures
        crate::routing_laws::retained(outputs, crate::server::routes_of(clients)) == outputs,
        crate::server::routes_of(clients).contains(0),
{
    let routes = crate::server::routes_of(clients);
    assert(routes[0] == 0);
    assert forall|entry: (Route, usize, Key)| #[trigger] outputs.contains(
        entry,
    ) implies routes.contains(entry.0) by {
        assert(outputs.contains((entry.0, entry.1, entry.2)));
        crate::server::routes_lead_to_clients(clients, entry.0);
    }
    assert(crate::routing_laws::retained(outputs, routes) =~= outputs);
}

/// Returning to this machine keeps the outputs in step.
proof fn lemma_stabilized(
    devices: Map<usize, Device>,
    clients: Map<usize, Client>,
    router: RouterView,
    log: Seq<Delivery>,
    after: RouterView,
    shown: Outputs,
)
    requires
        crate::server::stabilized(devices, clients, router, log, after, true),
        router.valid(),
        crate::routing_laws::consistent(router, shown),
        reaches(clients, shown),
        router.physical.dom().subset_of(devices.dom()),
        numbered(clients),
    ensures
        after.valid(),
        crate::routing_laws::consistent(after, shown_after_all(shown, log)),
        reaches(crate::server::clients_after(clients, log), shown_after_all(shown, log)),
        after.physical == router.physical,
        numbered(crate::server::clients_after(clients, log)),
        crate::server::routes_of(crate::server::clients_after(clients, log)).contains(
            after.current,
        ),
{
    let routes = crate::server::routes_of(clients);
    crate::server::stabilized_routes_are_available(devices, clients, router, log, after, true);
    lemma_still_numbered(clients, log);
    if !routes.contains(router.current) {
        let actions = after.reconciled(routes, ReconcileMode::Handoff);
        assert forall|device: usize, key: Key| #[trigger]
            shown.contains((0, device, key)) implies devices.contains_key(device) by {
            assert(router.held(device).contains(key));
            assert(router.physical.dom().contains(device));
        }
        lemma_on_routes(clients, shown);
        crate::routing_laws::lost_routes_keep_outputs_consistent(router, shown, routes);
        lemma_all_delivered(devices, clients, actions, log, shown, shown);
        lemma_smaller(
            after,
            shown_after_all(shown, log),
            crate::routing_laws::applied_all(shown, actions),
        );
    }
}

/// Carrying out actions keeps the outputs in step, where the actions do.
proof fn lemma_carried_out(
    devices: Map<usize, Device>,
    clients: Map<usize, Client>,
    router: RouterView,
    actions: Seq<ActionView>,
    log: Seq<Delivery>,
    after: RouterView,
    shown: Outputs,
)
    requires
        crate::server::carried_out(devices, clients, router, actions, log, after, true),
        router.valid(),
        crate::routing_laws::consistent(
            router,
            crate::routing_laws::applied_all(shown, actions),
        ),
        reaches(clients, shown),
        is_local(devices, shown),
        router.physical.dom().subset_of(devices.dom()),
        numbered(clients),
    ensures
        after.valid(),
        crate::routing_laws::consistent(after, shown_after_all(shown, log)),
        reaches(crate::server::clients_after(clients, log), shown_after_all(shown, log)),
        after.physical == router.physical,
        numbered(crate::server::clients_after(clients, log)),
        crate::server::routes_of(crate::server::clients_after(clients, log)).contains(
            after.current,
        ),
{
    let middle = choose|middle: int|
        0 <= middle <= log.len() && crate::server::dispatched(
            devices,
            clients,
            crate::server::messages_of(actions),
            #[trigger] log.take(middle),
            true,
        ) && crate::server::stabilized(
            devices,
            crate::server::clients_after(clients, log.take(middle)),
            router,
            log.skip(middle),
            after,
            true,
        );
    let first = log.take(middle);
    let second = log.skip(middle);
    assert(first + second =~= log);
    lemma_all_delivered(devices, clients, actions, first, shown, shown);
    lemma_smaller(
        router,
        shown_after_all(shown, first),
        crate::routing_laws::applied_all(shown, actions),
    );
    lemma_still_numbered(clients, first);
    lemma_stabilized(
        devices,
        crate::server::clients_after(clients, first),
        router,
        second,
        after,
        shown_after_all(shown, first),
    );
    lemma_shown_in_turn(shown, first, second);
    crate::server::lemma_clients_after_concat(clients, first, second);
}

proof fn lemma_known_after_steps(
    frame: FrameView,
    device: usize,
    events: Seq<Event>,
    routes: Seq<Route>,
)
    requires
        frame.router.physical.contains_key(device),
    ensures
        frame.steps(device, events, routes).router.physical.dom() == frame.router.physical.dom(),
    decreases events.len(),
{
    if events.len() > 0 {
        lemma_known_after_steps(frame, device, events.drop_last(), routes);
        let before = frame.steps(device, events.drop_last(), routes).router;
        let after = frame.steps(device, events, routes).router;
        assert(before.physical.contains_key(device));
        assert(after.physical.dom() =~= before.physical.dom());
    }
}

/// A server without devices and clients is in step with outputs on which no key is down.
pub proof fn new_servers_are_in_step(server: ServerView)
    requires
        server.clients == Map::<usize, Client>::empty(),
        server.router.physical == Map::<usize, Set<Key>>::empty(),
        server.router.active is None,
        server.router.current == 0,
    ensures
        in_step(server, Set::empty()),
        is_available(server),
{
    assert(server.clients.dom() =~= Set::<usize>::empty());
    assert(server.router.physical.dom() =~= Set::<usize>::empty());
    assert(crate::server::routes_of(server.clients)[0] == 0);
}

/// A frame of a device keeps the outputs in step, whatever becomes of what is sent.
pub proof fn frames_keep_outputs_in_step(
    before: ServerView,
    outputs: Outputs,
    id: usize,
    events: Seq<Event>,
    after: ServerView,
)
    requires
        in_step(before, outputs),
        is_available(before),
        before.devices.contains_key(id),
        crate::server::is_frame_routed(before, id, events, after, true),
    ensures
        in_step(after, shown_after_all(outputs, after.since(before))),
        is_available(after),
{
    let routes = crate::server::routes_of(before.clients);
    let router = before.router.after_frame(id, events, routes);
    let known = before.router.knowing(id);
    lemma_on_routes(before.clients, outputs);
    crate::routing_laws::frame_keeps_outputs_consistent(
        before.router,
        outputs,
        id,
        events,
        routes,
    );
    lemma_known_after_steps(
        FrameView { router: known, pending: seq![], actions: seq![] },
        id,
        events,
        routes,
    );
    assert(known.physical.dom() =~= before.router.physical.dom().insert(id));
    assert forall|device: usize, key: Key| #[trigger]
        outputs.contains((0, device, key)) implies before.devices.contains_key(device) by {
        assert(before.router.held(device).contains(key));
        assert(before.router.physical.dom().contains(device));
    }
    lemma_carried_out(
        before.devices,
        before.clients,
        router,
        before.router.frame_actions(id, events, routes),
        after.since(before),
        after.router,
        outputs,
    );
}

/// Actions that let go of keys leave an output without keys as it is.
proof fn lemma_nothing_shown(actions: Seq<ActionView>)
    requires
        forall|at: int|
            0 <= at < actions.len() ==> ((
            #[trigger] actions[at]) matches ActionView::SetKeyState { pressed_keys, .. }
                && pressed_keys == Set::<Key>::empty()),
    ensures
        crate::routing_laws::applied_all(Set::empty(), actions) == Set::<
            (Route, usize, Key),
        >::empty(),
    decreases actions.len(),
{
    if actions.len() > 0 {
        let fewer = actions.drop_last();
        assert forall|at: int| 0 <= at < fewer.len() implies ((
        #[trigger] fewer[at]) matches ActionView::SetKeyState { pressed_keys, .. } && pressed_keys
            == Set::<Key>::empty()) by {
            assert(fewer[at] == actions[at]);
        }
        lemma_nothing_shown(fewer);
        assert(actions[actions.len() - 1] is SetKeyState);
        assert(crate::routing_laws::applied_all(Set::empty(), actions) =~= Set::<
            (Route, usize, Key),
        >::empty());
    }
}

/// Where nobody is at the current route, no key is down.
proof fn lemma_lost_route_shows_nothing(
    router: RouterView,
    clients: Map<usize, Client>,
    outputs: Outputs,
)
    requires
        crate::routing_laws::consistent(router, outputs),
        reaches(clients, outputs),
        numbered(clients),
        !crate::server::routes_of(clients).contains(router.current),
    ensures
        outputs == Set::<(Route, usize, Key)>::empty(),
{
    lemma_on_routes(clients, outputs);
    let routes = crate::server::routes_of(clients);
    assert forall|entry: (Route, usize, Key)| !#[trigger] outputs.contains(entry) by {
        if outputs.contains(entry) {
            assert(outputs.contains((entry.0, entry.1, entry.2)));
            assert(crate::routing_laws::retained(outputs, routes).contains(entry));
        }
    }
    assert(outputs =~= Set::<(Route, usize, Key)>::empty());
}

/// Where nobody is at the current route, bringing a device up to date shows no key.
proof fn lemma_reconciled_elsewhere(
    router: RouterView,
    device: usize,
    routes: Seq<Route>,
    mode: ReconcileMode,
)
    requires
        !routes.contains(router.current),
    ensures
        crate::routing_laws::consistent(
            router,
            crate::routing_laws::applied_all(
                Set::empty(),
                router.device_reconciled(device, routes, mode),
            ),
        ),
{
    let actions = router.device_reconciled(device, routes, mode);
    assert forall|at: int| 0 <= at < actions.len() implies ((
    #[trigger] actions[at]) matches ActionView::SetKeyState { pressed_keys, .. } && pressed_keys
        == Set::<Key>::empty()) by {
        assert(routes.contains(routes[at]));
    }
    lemma_nothing_shown(actions);
}

/// A new device keeps the outputs in step, unless a switch key that is no trigger is already held on
/// it while switch keys are consumed.
pub proof fn new_devices_keep_outputs_in_step(
    before: ServerView,
    outputs: Outputs,
    device: Device,
    pressed: Set<Key>,
    after: ServerView,
)
    requires
        in_step(before, outputs),
        before.router.propagate || pressed.intersect(before.router.switch_keys()).subset_of(
            before.router.trigger_keys(),
        ),
        crate::server::is_activated(before, device, pressed, after, true),
    ensures
        in_step(after, shown_after_all(outputs, after.since(before))),
        is_available(after),
{
    let id = before.next_id;
    let router = before.router.with_device(id, pressed);
    let log = after.since(before);
    let plan = crate::server::update_for_all(
        before.client_order(),
        crate::server::creation(id, device),
    );
    let middle = choose|middle: int|
        0 <= middle <= log.len() && crate::server::follows(
            before.devices,
            before.clients,
            plan,
            #[trigger] log.take(middle),
        ) && crate::server::carried_out(
            after.devices,
            crate::server::clients_after(before.clients, log.take(middle)),
            router,
            router.device_reconciled(
                id,
                crate::server::routes_of(
                    crate::server::clients_after(before.clients, log.take(middle)),
                ),
                ReconcileMode::Recovery,
            ),
            log.skip(middle),
            after.router,
            true,
        );
    let first = log.take(middle);
    let second = log.skip(middle);
    assert(first + second =~= log);
    lemma_quiet(before.devices, before.clients, plan, first, outputs);
    let clients = crate::server::clients_after(before.clients, first);
    let shown = shown_after_all(outputs, first);
    let routes = crate::server::routes_of(clients);
    lemma_smaller(before.router, shown, outputs);
    if routes.contains(before.router.current) {
        crate::routing_laws::added_device_keeps_outputs_consistent(
            before.router,
            shown,
            id,
            pressed,
            routes,
        );
    } else {
        lemma_lost_route_shows_nothing(before.router, clients, shown);
        lemma_reconciled_elsewhere(router, id, routes, ReconcileMode::Recovery);
    }
    assert(router.physical.dom() =~= before.router.physical.dom().insert(id));
    assert(after.devices.dom() =~= before.devices.dom().insert(id));
    assert forall|other: usize, key: Key| #[trigger]
        shown.contains((0, other, key)) implies after.devices.contains_key(other) by {
        assert(before.router.held(other).contains(key));
        assert(before.router.physical.dom().contains(other));
    }
    lemma_carried_out(
        after.devices,
        clients,
        router,
        router.device_reconciled(id, routes, ReconcileMode::Recovery),
        second,
        after.router,
        shown,
    );
    lemma_shown_in_turn(outputs, first, second);
    crate::server::lemma_clients_after_concat(before.clients, first, second);
}

/// Lost events keep the outputs in step: the device is made anew on the clients and on this machine,
/// and its keys are then taken over. Left out are a switch key that is no trigger held on the device
/// while switch keys are consumed, and the trigger of the chord that is then held where it is down
/// for another device.
pub proof fn lost_events_keep_outputs_in_step(
    before: ServerView,
    outputs: Outputs,
    id: usize,
    renewed: ServerView,
    pressed: Set<Key>,
    after: ServerView,
)
    requires
        in_step(before, outputs),
        before.devices.contains_key(id),
        before.router.propagate || pressed.intersect(before.router.switch_keys()).subset_of(
            before.router.trigger_keys(),
        ),
        forall|route: Route, other: usize, key: Key| #[trigger]
            outputs.contains((route, other, key)) && other != id
                ==> !before.router.with_device_reset(id, pressed).is_active_trigger(key),
        crate::server::is_renewed(before, id, renewed),
        crate::server::is_device_reset(renewed, id, pressed, after, true),
    ensures
        in_step(
            after,
            shown_after_all(
                without_local(shown_after_all(outputs, renewed.since(before)), id),
                after.since(renewed),
            ),
        ),
        is_available(after),
{
    let first = renewed.since(before);
    let device = before.devices[id];
    lemma_reset_is_quiet(before.client_order(), id, device);
    lemma_quiet(
        before.devices,
        before.clients,
        crate::server::reset_for_all(before.client_order(), id, device),
        first,
        outputs,
    );
    let shown = without_local(shown_after_all(outputs, first), id);
    let router = before.router.with_device_reset(id, pressed);
    let routes = crate::server::routes_of(renewed.clients);
    let actions = router.device_reconciled(id, routes, ReconcileMode::Recovery);
    assert(shown.subset_of(outputs));
    lemma_smaller(before.router, shown, outputs);
    assert forall|route: Route, other: usize, key: Key| #[trigger]
        shown.contains((route, other, key)) implies (route == 0 || renewed.clients.contains_key(
        (route - 1) as usize,
    )) && outputs.contains((route, other, key)) by {
        assert(shown_after_all(outputs, first).contains((route, other, key)));
    }
    if routes.contains(before.router.current) {
        crate::routing_laws::reset_device_keeps_outputs_consistent(
            before.router,
            shown,
            id,
            pressed,
            routes,
        );
    } else {
        lemma_lost_route_shows_nothing(before.router, renewed.clients, shown);
        lemma_reconciled_elsewhere(router, id, routes, ReconcileMode::Recovery);
        lemma_reset_is_valid(before.router, id, pressed);
    }
    assert(router.physical.dom() =~= before.router.physical.dom().insert(id));
    assert forall|other: usize, key: Key| #[trigger]
        shown.contains((0, other, key)) implies renewed.devices.contains_key(other) by {
        assert(before.router.held(other).contains(key));
        assert(before.router.physical.dom().contains(other));
    }
    lemma_carried_out(
        renewed.devices,
        renewed.clients,
        router,
        actions,
        after.since(renewed),
        after.router,
        shown,
    );
}

proof fn lemma_reset_is_valid(router: RouterView, id: usize, pressed: Set<Key>)
    requires
        router.valid(),
    ensures
        router.with_device_reset(id, pressed).valid(),
{
    let added = router.with_device(id, pressed);
    assert(added.physical.dom() =~= router.physical.dom().insert(id));
    if let Some(at) = added.held_chord() {
        assert(added.held_first(at));
    }
}

proof fn lemma_reset_is_quiet(keys: Seq<usize>, id: usize, device: Device)
    ensures
        forall|at: int|
            0 <= at < crate::server::reset_for_all(keys, id, device).len() ==> is_quiet(
                #[trigger] crate::server::reset_for_all(keys, id, device)[at],
            ),
    decreases keys.len(),
{
    let plan = crate::server::reset_for_all(keys, id, device);
    if keys.len() > 0 {
        let before = crate::server::reset_for_all(keys.drop_last(), id, device);
        lemma_reset_is_quiet(keys.drop_last(), id, device);
        assert forall|at: int| 0 <= at < plan.len() implies is_quiet(#[trigger] plan[at]) by {
            if at < before.len() {
                assert(plan[at] == before[at]);
            } else {
                assert(plan[at] == crate::server::reset_messages(keys.last(), id, device)[at
                    - before.len()]);
            }
        }
    }
}

/// Dropping dead clients keeps the outputs in step.
pub proof fn dead_clients_keep_outputs_in_step(
    before: ServerView,
    outputs: Outputs,
    after: ServerView,
)
    requires
        in_step(before, outputs),
        crate::server::is_tidied(before, after, true),
    ensures
        in_step(after, shown_after_all(outputs, after.since(before))),
        is_available(after),
{
    let log = after.since(before);
    let middle = choose|middle: int|
        0 <= middle <= log.len() && crate::server::probed(
            before.clients,
            #[trigger] log.take(middle),
        ) && crate::server::stabilized(
            before.devices,
            crate::server::clients_after(before.clients, log.take(middle)),
            before.router,
            log.skip(middle),
            after.router,
            true,
        );
    let first = log.take(middle);
    let second = log.skip(middle);
    assert(first + second =~= log);
    let keys = crate::devices::in_order(before.clients.dom());
    crate::devices::lemma_in_order(before.clients.dom());
    assert forall|at: int| 0 <= at < first.len() implies ((
    #[trigger] first[at]) matches Delivery::Probe { client, .. } && client < usize::MAX) by {
        assert(keys.contains(keys[at]));
        assert(before.clients.contains_key(keys[at]));
    }
    lemma_looks(before.clients, first, outputs);
    let shown = shown_after_all(outputs, first);
    lemma_smaller(before.router, shown, outputs);
    lemma_stabilized(
        before.devices,
        crate::server::clients_after(before.clients, first),
        before.router,
        second,
        after.router,
        shown,
    );
    lemma_shown_in_turn(outputs, first, second);
    crate::server::lemma_clients_after_concat(before.clients, first, second);
}

/// A new client keeps the outputs in step.
pub proof fn new_clients_keep_outputs_in_step(
    before: ServerView,
    outputs: Outputs,
    key: usize,
    client: Client,
    after: ServerView,
)
    requires
        in_step(before, outputs),
        crate::server::has_joined(before, key, client, after, true),
    ensures
        in_step(after, shown_after_all(outputs, after.since(before))),
        is_available(after),
{
    let log = after.since(before);
    let joined = before.clients.insert(key, client);
    let plan = crate::server::introduction(key, before.devices);
    let middle = choose|middle: int|
        0 <= middle <= log.len() && crate::server::follows(
            before.devices,
            joined,
            plan,
            #[trigger] log.take(middle),
        ) && crate::server::stabilized(
            before.devices,
            crate::server::clients_after(joined, log.take(middle)),
            before.router,
            log.skip(middle),
            after.router,
            true,
        );
    let first = log.take(middle);
    let second = log.skip(middle);
    assert(first + second =~= log);
    assert(joined.dom() =~= before.clients.dom().insert(key));
    assert(reaches(joined, outputs));
    lemma_quiet(before.devices, joined, plan, first, outputs);
    let shown = shown_after_all(outputs, first);
    lemma_smaller(before.router, shown, outputs);
    lemma_stabilized(
        before.devices,
        crate::server::clients_after(joined, first),
        before.router,
        second,
        after.router,
        shown,
    );
    lemma_shown_in_turn(outputs, first, second);
    crate::server::lemma_clients_after_concat(joined, first, second);
}

/// After its removal was announced, a device has no key down on any client that was told.
proof fn lemma_destroyed(
    devices: Map<usize, Device>,
    clients: Map<usize, Client>,
    keys: Seq<usize>,
    id: usize,
    log: Seq<Delivery>,
    shown: Outputs,
)
    requires
        crate::server::follows(
            devices,
            clients,
            crate::server::update_for_all(keys, UpdateView::DestroyDevice { id }),
            log,
        ),
        reaches(clients, shown),
        numbered(clients),
    ensures
        forall|route: Route, key: Key| #[trigger]
            shown_after_all(shown, log).contains((route, id, key)) && route != 0 ==> !keys.contains(
                (route - 1) as usize,
            ),
    decreases keys.len(),
{
    let update = UpdateView::DestroyDevice { id };
    let plan = crate::server::update_for_all(keys, update);
    if keys.len() > 0 {
        let fewer = keys.drop_last();
        let last = keys.last();
        assert(plan.drop_last() =~= crate::server::update_for_all(fewer, update));
        assert(plan.last() == (Message::Update { client: last, update }));
        assert forall|key: usize| #[trigger] keys.contains(key) implies key == last
            || fewer.contains(key) by {
            let at = choose|at: int| 0 <= at < keys.len() && keys[at] == key;
            if at < fewer.len() {
                assert(fewer[at] == key);
            }
        }
        let after = shown_after_all(shown, log);
        if log.len() > 0 && crate::server::carries(
            devices,
            crate::server::clients_after(clients, log.drop_last()),
            log.last(),
            plan.last(),
        ) && crate::server::follows(devices, clients, plan.drop_last(), log.drop_last()) {
            let shorter = log.drop_last();
            lemma_destroyed(devices, clients, fewer, id, shorter, shown);
            lemma_still_numbered(clients, shorter);
            let before = shown_after_all(shown, shorter);
            assert forall|route: Route, key: Key| #[trigger]
                after.contains((route, id, key)) && route != 0 implies !keys.contains(
                (route - 1) as usize,
            ) by {
                assert(route != last + 1);
                assert(before.contains((route, id, key)));
            }
        } else {
            lemma_destroyed(devices, clients, fewer, id, log, shown);
            assert forall|at: int| 0 <= at < plan.len() implies is_quiet(#[trigger] plan[at]) by {}
            lemma_quiet(devices, clients, plan, log, shown);
            let left = crate::server::clients_after(clients, log);
            assert(!left.contains_key(last));
            assert forall|route: Route, key: Key| #[trigger]
                after.contains((route, id, key)) && route != 0 implies !keys.contains(
                (route - 1) as usize,
            ) by {
                assert(left.contains_key((route - 1) as usize));
            }
        }
    }
}

/// The removal of a device keeps the outputs in step: the clients are told, its task stops, and with
/// it goes its virtual device on this machine.
pub proof fn removed_devices_keep_outputs_in_step(
    before: ServerView,
    outputs: Outputs,
    id: usize,
    removed: ServerView,
    after: ServerView,
)
    requires
        in_step(before, outputs),
        crate::server::is_removed(before, id, removed),
        crate::server::is_stopped(removed, id, after, true),
    ensures
        in_step(
            after,
            shown_after_all(
                without_local(shown_after_all(outputs, removed.since(before)), id),
                after.since(removed),
            ),
        ),
        is_available(after),
{
    let first = removed.since(before);
    let order = before.client_order();
    let update = UpdateView::DestroyDevice { id };
    let plan = crate::server::update_for_all(order, update);
    assert forall|at: int| 0 <= at < plan.len() implies is_quiet(#[trigger] plan[at]) by {}
    lemma_quiet(before.devices, before.clients, plan, first, outputs);
    lemma_destroyed(before.devices, before.clients, order, id, first, outputs);
    crate::devices::lemma_in_order(before.clients.dom());
    let told = shown_after_all(outputs, first);
    let shown = without_local(told, id);
    let router = before.router.without_device(id);
    let target = crate::routing_laws::without_device(outputs, id);
    assert forall|entry: (Route, usize, Key)| #[trigger] shown.contains(
        entry,
    ) implies target.contains(entry) by {
        assert(told.contains((entry.0, entry.1, entry.2)));
        assert(outputs.contains((entry.0, entry.1, entry.2)));
        if entry.1 == id {
            assert(before.clients.contains_key((entry.0 - 1) as usize));
        }
    }
    crate::routing_laws::removed_device_keeps_outputs_consistent(before.router, outputs, id);
    lemma_smaller(router, shown, target);
    assert forall|route: Route, device: usize, key: Key| #[trigger]
        shown.contains((route, device, key)) implies route == 0 || removed.clients.contains_key(
        (route - 1) as usize,
    ) by {
        assert(told.contains((route, device, key)));
    }
    assert(router.physical.dom() =~= before.router.physical.dom().remove(id));
    assert(removed.devices.dom() =~= before.devices.dom().remove(id));
    lemma_stabilized(
        removed.devices,
        removed.clients,
        router,
        after.since(removed),
        after.router,
        shown,
    );
}

} // verus!
