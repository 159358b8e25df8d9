//! What routing promises of the keys on the outputs as a whole.

use vstd::prelude::*;

use crate::event::{Event, SyncEvent};
use crate::key::{Key, KeyEvent};
use crate::routing::{ActionView, FrameView, ReconcileMode, Route, RouterView};

verus! {

/// The keys that are down on the outputs: a key of a device on a route.
pub type Outputs = Set<(Route, usize, Key)>;

/// The keys of a device that are down on a route.
pub open spec fn down_on(outputs: Outputs, route: Route, device: usize) -> Set<Key> {
    Set::new(|key: Key| outputs.contains((route, device, key)))
}

/// The outputs in which the keys of a device on a route are exactly these.
pub open spec fn with_keys(
    outputs: Outputs,
    route: Route,
    device: usize,
    keys: Set<Key>,
) -> Outputs {
    Set::new(
        |entry: (Route, usize, Key)|
            if entry.0 == route && entry.1 == device {
                keys.contains(entry.2)
            } else {
                outputs.contains(entry)
            },
    )
}

/// The outputs after an action.
pub open spec fn applied(outputs: Outputs, action: ActionView) -> Outputs {
    match action {
        ActionView::Events { route, device_id, events } => with_keys(
            outputs,
            route,
            device_id,
            crate::event::keys_after(down_on(outputs, route, device_id), events),
        ),
        ActionView::SetKeyState { route, device_id, pressed_keys } => with_keys(
            outputs,
            route,
            device_id,
            pressed_keys,
        ),
    }
}

/// The outputs after some actions, one after the other.
pub open spec fn applied_all(outputs: Outputs, actions: Seq<ActionView>) -> Outputs
    decreases actions.len(),
{
    if actions.len() == 0 {
        outputs
    } else {
        applied(applied_all(outputs, actions.drop_last()), actions.last())
    }
}

/// The outputs after the routes that are not on the list have gone.
pub open spec fn retained(outputs: Outputs, routes: Seq<Route>) -> Outputs {
    outputs.filter(|entry: (Route, usize, Key)| routes.contains(entry.0))
}

/// The outputs after a device has gone.
pub open spec fn without_device(outputs: Outputs, device: usize) -> Outputs {
    outputs.filter(|entry: (Route, usize, Key)| entry.1 != device)
}

/// Whether the outputs show nothing that the router will not take back: only keys that are
/// physically held, only on the current route, and none of those whose release is kept from it.
pub open spec fn consistent(router: RouterView, outputs: Outputs) -> bool {
    forall|route: Route, device: usize, key: Key| #[trigger]
        outputs.contains((route, device, key)) ==> {
            &&& route == router.current
            &&& router.held(device).contains(key)
            &&& !router.is_blocked(device, key)
            &&& !router.is_active_trigger(key)
            &&& router.propagate || !router.switch_keys().contains(key)
        }
}

/// Whether every blocked key is physically held.
pub open spec fn blocks_held_keys(router: RouterView) -> bool {
    forall|device: usize, key: Key| #[trigger]
        router.is_blocked(device, key) ==> router.held(device).contains(key)
}

/// The outputs in the middle of a frame, with the waiting events already replayed.
pub open spec fn outputs_of(frame: FrameView, device: usize, outputs: Outputs) -> Outputs {
    let flushed = applied_all(outputs, frame.actions);
    with_keys(
        flushed,
        frame.router.current,
        device,
        crate::event::keys_after(
            down_on(flushed, frame.router.current, device),
            crate::routing::events_of(frame.pending),
        ),
    )
}

/// Whether all waiting events go to the current route.
pub open spec fn waits_for_current(frame: FrameView) -> bool {
    forall|at: int|
        0 <= at < frame.pending.len() ==> (#[trigger] frame.pending[at]).0 == frame.router.current
}

proof fn lemma_applied_in_turn(outputs: Outputs, first: Seq<ActionView>, second: Seq<ActionView>)
    ensures
        applied_all(outputs, first + second) == applied_all(applied_all(outputs, first), second),
    decreases second.len(),
{
    if second.len() == 0 {
        assert(first + second =~= first);
    } else {
        let all = first + second;
        assert(all.drop_last() =~= first + second.drop_last());
        assert(all.last() == second.last());
        lemma_applied_in_turn(outputs, first, second.drop_last());
    }
}

proof fn lemma_keys_unchanged(outputs: Outputs, route: Route, device: usize)
    ensures
        with_keys(outputs, route, device, down_on(outputs, route, device)) == outputs,
{
    assert(with_keys(outputs, route, device, down_on(outputs, route, device)) =~= outputs);
}

/// Waiting events of one route have the same effect in a frame of their own.
proof fn lemma_flushed(
    outputs: Outputs,
    route: Route,
    device: usize,
    pending: Seq<(Route, Event)>,
)
    requires
        forall|at: int| 0 <= at < pending.len() ==> (#[trigger] pending[at]).0 == route,
    ensures
        applied_all(outputs, crate::routing::flushed(device, pending)) == with_keys(
            outputs,
            route,
            device,
            crate::event::keys_after(
                down_on(outputs, route, device),
                crate::routing::events_of(pending),
            ),
        ),
{
    let events = crate::routing::events_of(pending);
    if pending.len() == 0 {
        assert(events =~= Seq::<Event>::empty());
        lemma_keys_unchanged(outputs, route, device);
    } else {
        crate::routing::lemma_run_length(pending);
        let run = crate::routing::run_length(pending) as int;
        if run < pending.len() {
            assert(pending[run].0 == route);
        }
        assert(pending.take(run) =~= pending);
        assert(pending.skip(run) =~= Seq::<(Route, Event)>::empty());
        let framed = events.push(Event::Sync(SyncEvent::All));
        assert(framed.drop_last() =~= events);
        let action = ActionView::Events { route, device_id: device, events: framed };
        assert(crate::routing::flushed(device, pending.skip(run)) =~= Seq::<ActionView>::empty());
        assert(crate::routing::flushed(device, pending) =~= seq![action]);
        let actions = seq![action];
        assert(actions.drop_last() =~= Seq::<ActionView>::empty());
        assert(applied_all(outputs, actions.drop_last()) == outputs);
        assert(applied_all(outputs, actions) == applied(outputs, action));
    }
}

proof fn lemma_states(
    outputs: Outputs,
    route: Route,
    ids: Seq<usize>,
    keys: spec_fn(usize) -> Set<Key>,
)
    ensures
        applied_all(
            outputs,
            ids.map_values(
                |device: usize|
                    ActionView::SetKeyState { route, device_id: device, pressed_keys: keys(device) },
            ),
        ) == Set::new(
            |entry: (Route, usize, Key)|
                if entry.0 == route && ids.contains(entry.1) {
                    keys(entry.1).contains(entry.2)
                } else {
                    outputs.contains(entry)
                },
        ),
    decreases ids.len(),
{
    let state = |device: usize|
        ActionView::SetKeyState { route, device_id: device, pressed_keys: keys(device) };
    let after = applied_all(outputs, ids.map_values(state));
    let target = Set::new(
        |entry: (Route, usize, Key)|
            if entry.0 == route && ids.contains(entry.1) {
                keys(entry.1).contains(entry.2)
            } else {
                outputs.contains(entry)
            },
    );
    if ids.len() > 0 {
        let shorter = ids.drop_last();
        lemma_states(outputs, route, shorter, keys);
        assert(ids.map_values(state).drop_last() =~= shorter.map_values(state));
        assert(ids.map_values(state).last() == state(ids.last()));
        assert forall|device: usize| ids.contains(device) <==> shorter.contains(device) || device
            == ids.last() by {
            if shorter.contains(device) {
                let at = choose|at: int| 0 <= at < shorter.len() && shorter[at] == device;
                assert(ids[at] == device);
            }
            if ids.contains(device) && device != ids.last() {
                let at = choose|at: int| 0 <= at < ids.len() && ids[at] == device;
                assert(shorter[at] == device);
            }
        }
    }
    assert(after =~= target);
}

/// What bringing every output up to date leaves on the outputs.
proof fn lemma_reconciled(
    router: RouterView,
    outputs: Outputs,
    routes: Seq<Route>,
    mode: ReconcileMode,
)
    requires
        router.valid(),
    ensures
        applied_all(outputs, router.reconciled(routes, mode)) == Set::new(
            |entry: (Route, usize, Key)|
                if routes.contains(entry.0) && router.physical.contains_key(entry.1) {
                    entry.0 == router.current && router.desired(entry.1, mode).contains(entry.2)
                } else {
                    outputs.contains(entry)
                },
        ),
{
    let ids = crate::devices::in_order(router.physical.dom());
    crate::devices::lemma_in_order(router.physical.dom());
    lemma_released(router, outputs, routes);
    let released = applied_all(outputs, router.inactive_releases(routes));
    let after = applied_all(outputs, router.reconciled(routes, mode));
    if routes.contains(router.current) {
        lemma_applied_in_turn(
            outputs,
            router.inactive_releases(routes),
            router.active_states(mode),
        );
        lemma_states(
            released,
            router.current,
            ids,
            |device: usize| router.desired(device, mode),
        );
        let states = ids.map_values(
            |device: usize|
                ActionView::SetKeyState {
                    route: router.current,
                    device_id: device,
                    pressed_keys: (|device: usize| router.desired(device, mode))(device),
                },
        );
        assert(states =~= router.active_states(mode));
    } else {
        assert(router.reconciled(routes, mode) =~= router.inactive_releases(routes));
    }
    let target = Set::new(
        |entry: (Route, usize, Key)|
            if routes.contains(entry.0) && router.physical.contains_key(entry.1) {
                entry.0 == router.current && router.desired(entry.1, mode).contains(entry.2)
            } else {
                outputs.contains(entry)
            },
    );
    assert forall|entry: (Route, usize, Key)| #[trigger] after.contains(entry) <==> target.contains(
        entry,
    ) by {
        assert(ids.contains(entry.1) <==> router.physical.dom().contains(entry.1));
    }
    assert(after =~= target);
}

proof fn lemma_released(router: RouterView, outputs: Outputs, routes: Seq<Route>)
    requires
        router.valid(),
    ensures
        applied_all(outputs, router.inactive_releases(routes)) == Set::new(
            |entry: (Route, usize, Key)|
                !(routes.contains(entry.0) && entry.0 != router.current
                    && router.physical.contains_key(entry.1)) && outputs.contains(entry),
        ),
    decreases routes.len(),
{
    let target = Set::new(
        |entry: (Route, usize, Key)|
            !(routes.contains(entry.0) && entry.0 != router.current
                && router.physical.contains_key(entry.1)) && outputs.contains(entry),
    );
    let after = applied_all(outputs, router.inactive_releases(routes));
    if routes.len() > 0 {
        let shorter = routes.drop_last();
        let last = routes.last();
        let ids = crate::devices::in_order(router.physical.dom());
        crate::devices::lemma_in_order(router.physical.dom());
        lemma_released(router, outputs, shorter);
        let before = applied_all(outputs, router.inactive_releases(shorter));
        assert forall|route: Route| routes.contains(route) <==> shorter.contains(route) || route
            == last by {
            if shorter.contains(route) {
                let at = choose|at: int| 0 <= at < shorter.len() && shorter[at] == route;
                assert(routes[at] == route);
            }
            if routes.contains(route) && route != last {
                let at = choose|at: int| 0 <= at < routes.len() && routes[at] == route;
                assert(shorter[at] == route);
            }
        }
        if last != router.current {
            lemma_applied_in_turn(
                outputs,
                router.inactive_releases(shorter),
                router.releases(last),
            );
            lemma_states(before, last, ids, |device: usize| Set::empty());
            let states = ids.map_values(
                |device: usize|
                    ActionView::SetKeyState {
                        route: last,
                        device_id: device,
                        pressed_keys: (|device: usize| Set::empty())(device),
                    },
            );
            assert(states =~= router.releases(last));
            assert forall|entry: (Route, usize, Key)| #[trigger] after.contains(entry)
                <==> target.contains(entry) by {
                assert(ids.contains(entry.1) <==> router.physical.dom().contains(entry.1));
            }
        }
    }
    assert(after =~= target);
}

proof fn lemma_next_route(routes: Seq<Route>, current: Route)
    requires
        routes.contains(0),
    ensures
        routes.contains(crate::routing::route_after(routes, current)),
{
    lemma_route_after(routes, current);
}

proof fn lemma_route_after(routes: Seq<Route>, current: Route)
    ensures
        crate::routing::route_after(routes, current) == 0 || routes.contains(
            crate::routing::route_after(routes, current),
        ),
    decreases routes.len(),
{
    if routes.len() > 0 {
        if routes[0] > current {
            assert(routes.contains(routes[0]));
        } else {
            let rest = routes.drop_first();
            lemma_route_after(rest, current);
            let next = crate::routing::route_after(rest, current);
            if rest.contains(next) {
                let at = choose|at: int| 0 <= at < rest.len() && rest[at] == next;
                assert(routes[at + 1] == next);
            }
        }
    }
}

/// After a handoff, the new route shows exactly what is to be carried over, and nothing else is
/// left anywhere.
proof fn lemma_handoff_outputs(router: RouterView, outputs: Outputs, routes: Seq<Route>)
    requires
        router.valid(),
        forall|route: Route, device: usize, key: Key| #[trigger]
            outputs.contains((route, device, key)) ==> routes.contains(route)
                && router.physical.contains_key(device),
        routes.contains(router.current),
        exists|trigger: Option<Key>| #[trigger]
            router.blocked == router.blocked_by_handoff(trigger) && (
            router.active_trigger() is Some ==> trigger == router.active_trigger()),
    ensures
        applied_all(outputs, router.reconciled(routes, ReconcileMode::Handoff)) == Set::new(
            |entry: (Route, usize, Key)|
                entry.0 == router.current && router.desired(
                    entry.1,
                    ReconcileMode::Handoff,
                ).contains(entry.2),
        ),
        consistent(
            router,
            applied_all(outputs, router.reconciled(routes, ReconcileMode::Handoff)),
        ),
{
    let after = applied_all(outputs, router.reconciled(routes, ReconcileMode::Handoff));
    lemma_reconciled(router, outputs, routes, ReconcileMode::Handoff);
    let target = Set::new(
        |entry: (Route, usize, Key)|
            entry.0 == router.current && router.desired(
                entry.1,
                ReconcileMode::Handoff,
            ).contains(entry.2),
    );
    assert forall|entry: (Route, usize, Key)| #[trigger] after.contains(entry) <==> target.contains(
        entry,
    ) by {
        if outputs.contains(entry) {
            assert(outputs.contains((entry.0, entry.1, entry.2)));
        }
    }
    assert(after =~= target);
    let trigger = choose|trigger: Option<Key>| #[trigger]
        router.blocked == router.blocked_by_handoff(trigger) && (
        router.active_trigger() is Some ==> trigger == router.active_trigger());
    assert forall|route: Route, device: usize, key: Key| #[trigger]
        after.contains((route, device, key)) implies {
        &&& route == router.current
        &&& router.held(device).contains(key)
        &&& !router.is_blocked(device, key)
        &&& !router.is_active_trigger(key)
        &&& router.propagate || !router.switch_keys().contains(key)
    } by {
        assert(router.desired(device, ReconcileMode::Handoff).contains(key));
        if router.suppressed(device, trigger).contains(key) {
            assert(router.suppressed(device, trigger) != Set::<Key>::empty());
            assert(router.blocked_by_handoff(trigger).contains_key(device));
            assert(router.is_blocked(device, key));
        }
    }
}

proof fn lemma_outputs_after_step(
    frame: FrameView,
    device: usize,
    event: Event,
    routes: Seq<Route>,
    outputs: Outputs,
)
    requires
        frame.router.valid(),
        frame.router.physical.contains_key(device),
        waits_for_current(frame),
        consistent(frame.router, outputs_of(frame, device, outputs)),
        routes.contains(0),
        routes.contains(frame.router.current),
    ensures
        frame.step(device, event, routes).router.valid(),
        frame.step(device, event, routes).router.physical.contains_key(device),
        waits_for_current(frame.step(device, event, routes)),
        consistent(
            frame.step(device, event, routes).router,
            outputs_of(frame.step(device, event, routes), device, outputs),
        ),
        routes.contains(frame.step(device, event, routes).router.current),
{
    let router = frame.router;
    let after = frame.step(device, event, routes);
    let base = applied_all(outputs, frame.actions);
    let shown = outputs_of(frame, device, outputs);
    let events = crate::routing::events_of(frame.pending);
    lemma_flushed(base, router.current, device, frame.pending);
    lemma_applied_in_turn(
        outputs,
        frame.actions,
        crate::routing::flushed(device, frame.pending),
    );
    match event {
        Event::Sync(SyncEvent::All) => {
            assert(crate::routing::events_of(after.pending) =~= Seq::<Event>::empty());
            lemma_keys_unchanged(shown, router.current, device);
            assert(outputs_of(after, device, outputs) == shown);
        },
        Event::Key(KeyEvent { key, down }) => {
            let moved = router.with_key(device, key, down);
            crate::routing::lemma_same_bindings(router, moved);
            if router.is_blocked(device, key) || router.is_active_trigger(key) {
                crate::routing::lemma_same_bindings(router, after.router);
                assert(outputs_of(after, device, outputs) == shown);
            } else if down && router.active is None && moved.completed(key) is Some {
                let pending = if router.propagate {
                    frame.pending.push((router.current, event))
                } else {
                    frame.pending
                };
                let at = moved.completed(key).unwrap();
                assert(moved.completes_first(at, key));
                let handed = moved.handed_over(at, routes);
                let flushed = crate::routing::flushed(device, pending);
                lemma_flushed(base, router.current, device, pending);
                lemma_applied_in_turn(outputs, frame.actions, flushed);
                lemma_applied_in_turn(
                    outputs,
                    frame.actions + flushed,
                    handed.reconciled(routes, ReconcileMode::Handoff),
                );
                let replayed = applied_all(outputs, frame.actions + flushed);
                assert forall|route: Route, other: usize, held: Key| #[trigger]
                    replayed.contains((route, other, held)) implies routes.contains(route)
                    && handed.physical.contains_key(other) by {
                    if route != router.current || other != device {
                        assert(shown.contains((route, other, held)));
                    }
                }
                lemma_next_route(routes, router.current);
                lemma_handoff_suppresses(moved, at, routes);
                lemma_handoff_outputs(handed, replayed, routes);
                let result = applied_all(replayed, handed.reconciled(routes, ReconcileMode::Handoff));
                assert(crate::routing::events_of(after.pending) =~= Seq::<Event>::empty());
                lemma_keys_unchanged(result, handed.current, device);
                assert(outputs_of(after, device, outputs) == result);
            } else if !router.propagate && router.switch_keys().contains(key) {
                crate::routing::lemma_same_bindings(router, after.router);
                assert(outputs_of(after, device, outputs) == shown);
            } else {
                crate::routing::lemma_same_bindings(router, after.router);
                lemma_replayed_one_more(frame, device, event, outputs);
            }
        },
        _ => {
            lemma_replayed_one_more(frame, device, event, outputs);
            assert(outputs_of(after, device, outputs) =~= shown);
        },
    }
}

/// What one more waiting event does to the outputs.
proof fn lemma_replayed_one_more(frame: FrameView, device: usize, event: Event, outputs: Outputs)
    ensures
        ({
            let shown = outputs_of(frame, device, outputs);
            let longer = FrameView {
                pending: frame.pending.push((frame.router.current, event)),
                ..frame
            };
            let keys = down_on(shown, frame.router.current, device);
            outputs_of(longer, device, outputs) == with_keys(
                shown,
                frame.router.current,
                device,
                match event {
                    Event::Key(KeyEvent { key, down: true }) => keys.insert(key),
                    Event::Key(KeyEvent { key, down: false }) => keys.remove(key),
                    _ => keys,
                },
            )
        }),
{
    let shown = outputs_of(frame, device, outputs);
    let base = applied_all(outputs, frame.actions);
    let longer = FrameView { pending: frame.pending.push((frame.router.current, event)), ..frame };
    let events = crate::routing::events_of(frame.pending);
    let more = crate::routing::events_of(longer.pending);
    assert(more =~= events.push(event));
    assert(more.drop_last() =~= events);
    let keys = down_on(shown, frame.router.current, device);
    assert(keys =~= crate::event::keys_after(down_on(base, frame.router.current, device), events));
    let target = with_keys(
        shown,
        frame.router.current,
        device,
        match event {
            Event::Key(KeyEvent { key, down: true }) => keys.insert(key),
            Event::Key(KeyEvent { key, down: false }) => keys.remove(key),
            _ => keys,
        },
    );
    assert(outputs_of(longer, device, outputs) =~= target);
}

proof fn lemma_handoff_suppresses(router: RouterView, at: int, routes: Seq<Route>)
    requires
        0 <= at < router.bindings.len(),
    ensures
        ({
            let after = router.handed_over(at, routes);
            after.blocked == after.blocked_by_handoff(Some(router.bindings[at].trigger))
        }),
{
    let after = router.handed_over(at, routes);
    crate::routing::lemma_same_suppressed(router, after, Some(router.bindings[at].trigger));
}

proof fn lemma_outputs_after_steps(
    frame: FrameView,
    device: usize,
    events: Seq<Event>,
    routes: Seq<Route>,
    outputs: Outputs,
)
    requires
        frame.router.valid(),
        frame.router.physical.contains_key(device),
        waits_for_current(frame),
        consistent(frame.router, outputs_of(frame, device, outputs)),
        routes.contains(0),
        routes.contains(frame.router.current),
    ensures
        frame.steps(device, events, routes).router.valid(),
        frame.steps(device, events, routes).router.physical.contains_key(device),
        waits_for_current(frame.steps(device, events, routes)),
        consistent(
            frame.steps(device, events, routes).router,
            outputs_of(frame.steps(device, events, routes), device, outputs),
        ),
        routes.contains(frame.steps(device, events, routes).router.current),
    decreases events.len(),
{
    if events.len() > 0 {
        lemma_outputs_after_steps(frame, device, events.drop_last(), routes, outputs);
        lemma_outputs_after_step(
            frame.steps(device, events.drop_last(), routes),
            device,
            events.last(),
            routes,
            outputs,
        );
    }
}

/// A frame keeps the outputs consistent: whatever was pressed on them is physically held, is shown
/// on the current route alone, and will be let go when its key is.
pub proof fn frame_keeps_outputs_consistent(
    router: RouterView,
    outputs: Outputs,
    device: usize,
    events: Seq<Event>,
    routes: Seq<Route>,
)
    requires
        router.valid(),
        consistent(router, outputs),
        routes.contains(0),
        routes.contains(router.current),
    ensures
        router.after_frame(device, events, routes).valid(),
        routes.contains(router.after_frame(device, events, routes).current),
        consistent(
            router.after_frame(device, events, routes),
            applied_all(outputs, router.frame_actions(device, events, routes)),
        ),
{
    let start = FrameView { router: router.knowing(device), pending: seq![], actions: seq![] };
    crate::routing::lemma_same_bindings(router, start.router);
    assert(crate::routing::events_of(start.pending) =~= Seq::<Event>::empty());
    lemma_keys_unchanged(outputs, router.current, device);
    assert(outputs_of(start, device, outputs) == outputs);
    assert(consistent(start.router, outputs));
    lemma_outputs_after_steps(start, device, events, routes, outputs);
    let end = start.steps(device, events, routes);
    lemma_flushed(applied_all(outputs, end.actions), end.router.current, device, end.pending);
    lemma_applied_in_turn(outputs, end.actions, crate::routing::flushed(device, end.pending));
}

/// Adding a device keeps the outputs consistent, unless chords are consumed and one of their keys
/// that is no trigger is already held on the device.
pub proof fn added_device_keeps_outputs_consistent(
    router: RouterView,
    outputs: Outputs,
    device: usize,
    pressed: Set<Key>,
    routes: Seq<Route>,
)
    requires
        router.valid(),
        consistent(router, outputs),
        routes.contains(router.current),
        router.propagate || pressed.intersect(router.switch_keys()).subset_of(
            router.trigger_keys(),
        ),
    ensures
        router.with_device(device, pressed).valid(),
        consistent(
            router.with_device(device, pressed),
            applied_all(
                outputs,
                router.with_device(device, pressed).device_reconciled(
                    device,
                    routes,
                    ReconcileMode::Recovery,
                ),
            ),
        ),
{
    let added = router.with_device(device, pressed);
    crate::routing::lemma_same_bindings(router, added);
    lemma_device_reconciled(added, outputs, device, routes, ReconcileMode::Recovery);
    let after = applied_all(
        outputs,
        added.device_reconciled(device, routes, ReconcileMode::Recovery),
    );
    assert forall|route: Route, other: usize, key: Key| #[trigger]
        after.contains((route, other, key)) implies {
        &&& route == added.current
        &&& added.held(other).contains(key)
        &&& !added.is_blocked(other, key)
        &&& !added.is_active_trigger(key)
        &&& added.propagate || !added.switch_keys().contains(key)
    } by {
        if other == device {
            if !routes.contains(route) {
                assert(outputs.contains((route, other, key)));
            }
            assert(added.desired(device, ReconcileMode::Recovery).contains(key));
            if router.trigger_keys().contains(key) {
                assert(pressed.intersect(router.trigger_keys()).contains(key));
                assert(added.is_blocked(device, key));
            }
            if added.is_active_trigger(key) {
                let at = added.active->0;
                assert(router.bindings[at].trigger == key);
                assert(router.trigger_keys().contains(key));
            }
            if router.switch_keys().contains(key) && !router.propagate {
                assert(pressed.intersect(router.switch_keys()).contains(key));
            }
        } else {
            assert(outputs.contains((route, other, key)));
        }
    }
}

/// What bringing one device up to date leaves on the outputs.
proof fn lemma_device_reconciled(
    router: RouterView,
    outputs: Outputs,
    device: usize,
    routes: Seq<Route>,
    mode: ReconcileMode,
)
    ensures
        applied_all(outputs, router.device_reconciled(device, routes, mode)) == Set::new(
            |entry: (Route, usize, Key)|
                if routes.contains(entry.0) && entry.1 == device {
                    entry.0 == router.current && router.desired(device, mode).contains(entry.2)
                } else {
                    outputs.contains(entry)
                },
        ),
    decreases routes.len(),
{
    let actions = router.device_reconciled(device, routes, mode);
    let after = applied_all(outputs, actions);
    let target = Set::new(
        |entry: (Route, usize, Key)|
            if routes.contains(entry.0) && entry.1 == device {
                entry.0 == router.current && router.desired(device, mode).contains(entry.2)
            } else {
                outputs.contains(entry)
            },
    );
    if routes.len() > 0 {
        let shorter = routes.drop_last();
        lemma_device_reconciled(router, outputs, device, shorter, mode);
        assert(actions.drop_last() =~= router.device_reconciled(device, shorter, mode));
        assert forall|route: Route| routes.contains(route) <==> shorter.contains(route) || route
            == routes.last() by {
            if shorter.contains(route) {
                let at = choose|at: int| 0 <= at < shorter.len() && shorter[at] == route;
                assert(routes[at] == route);
            }
            if routes.contains(route) && route != routes.last() {
                let at = choose|at: int| 0 <= at < routes.len() && routes[at] == route;
                assert(shorter[at] == route);
            }
        }
    }
    assert(after =~= target);
}

/// Taking over the keys of a device keeps the outputs consistent, unless the trigger of the chord
/// that then counts as active is already shown for another device, or chords are consumed and one
/// of their keys that is no trigger is held on the device.
pub proof fn reset_device_keeps_outputs_consistent(
    router: RouterView,
    outputs: Outputs,
    device: usize,
    pressed: Set<Key>,
    routes: Seq<Route>,
)
    requires
        router.valid(),
        consistent(router, outputs),
        routes.contains(router.current),
        router.propagate || pressed.intersect(router.switch_keys()).subset_of(
            router.trigger_keys(),
        ),
        forall|route: Route, other: usize, key: Key| #[trigger]
            outputs.contains((route, other, key)) && other != device
                ==> !router.with_device_reset(device, pressed).is_active_trigger(key),
    ensures
        router.with_device_reset(device, pressed).valid(),
        consistent(
            router.with_device_reset(device, pressed),
            applied_all(
                outputs,
                router.with_device_reset(device, pressed).device_reconciled(
                    device,
                    routes,
                    ReconcileMode::Recovery,
                ),
            ),
        ),
{
    let added = router.with_device(device, pressed);
    let reset = router.with_device_reset(device, pressed);
    crate::routing::lemma_same_bindings(router, added);
    crate::routing::lemma_same_bindings(router, reset);
    added_device_keeps_outputs_consistent(router, outputs, device, pressed, routes);
    assert(reset.desired(device, ReconcileMode::Recovery) =~= added.desired(
        device,
        ReconcileMode::Recovery,
    ));
    assert(reset.device_reconciled(device, routes, ReconcileMode::Recovery)
        =~= added.device_reconciled(device, routes, ReconcileMode::Recovery));
    if let Some(at) = reset.active {
        assert(added.held_first(at));
    }
    lemma_device_reconciled(reset, outputs, device, routes, ReconcileMode::Recovery);
    let after = applied_all(
        outputs,
        reset.device_reconciled(device, routes, ReconcileMode::Recovery),
    );
    assert forall|route: Route, other: usize, key: Key| #[trigger]
        after.contains((route, other, key)) implies {
        &&& route == reset.current
        &&& reset.held(other).contains(key)
        &&& !reset.is_blocked(other, key)
        &&& !reset.is_active_trigger(key)
        &&& reset.propagate || !reset.switch_keys().contains(key)
    } by {
        assert(added.held(other).contains(key));
        if other == device {
            if reset.is_active_trigger(key) {
                assert(router.bindings[reset.active->0].trigger == key);
                assert(router.trigger_keys().contains(key));
                assert(pressed.intersect(router.trigger_keys()).contains(key));
                assert(added.is_blocked(device, key));
            }
        } else {
            assert(outputs.contains((route, other, key)));
        }
    }
}

/// Removing a device keeps the outputs consistent.
pub proof fn removed_device_keeps_outputs_consistent(
    router: RouterView,
    outputs: Outputs,
    device: usize,
)
    requires
        router.valid(),
        consistent(router, outputs),
    ensures
        router.without_device(device).valid(),
        consistent(router.without_device(device), without_device(outputs, device)),
{
    let after = router.without_device(device);
    crate::routing::lemma_same_bindings(router, after);
    let left = without_device(outputs, device);
    assert forall|route: Route, other: usize, key: Key| #[trigger]
        left.contains((route, other, key)) implies {
        &&& route == after.current
        &&& after.held(other).contains(key)
        &&& !after.is_blocked(other, key)
        &&& !after.is_active_trigger(key)
        &&& after.propagate || !after.switch_keys().contains(key)
    } by {
        assert(outputs.contains((route, other, key)));
    }
}

/// Losing routes keeps the outputs that are left consistent. Where the current route was among the
/// lost ones, the local machine takes over and shows the held modifiers that are not blocked.
pub proof fn lost_routes_keep_outputs_consistent(
    router: RouterView,
    outputs: Outputs,
    routes: Seq<Route>,
)
    requires
        router.valid(),
        consistent(router, outputs),
        routes.contains(0),
    ensures
        routes.contains(router.current) ==> consistent(router, retained(outputs, routes)),
        router.rehomed().valid(),
        !routes.contains(router.current) ==> consistent(
            router.rehomed(),
            applied_all(
                retained(outputs, routes),
                router.rehomed().reconciled(routes, ReconcileMode::Handoff),
            ),
        ),
{
    let left = retained(outputs, routes);
    assert forall|route: Route, device: usize, key: Key| #[trigger]
        left.contains((route, device, key)) implies outputs.contains((route, device, key)) by {}
    if !routes.contains(router.current) {
        let after = router.rehomed();
        crate::routing::lemma_same_bindings(router, after);
        crate::routing::lemma_same_suppressed(router, after, router.active_trigger());
        assert(after.blocked == after.blocked_by_handoff(after.active_trigger()));
        assert forall|route: Route, device: usize, key: Key| #[trigger]
            left.contains((route, device, key)) implies routes.contains(route)
            && after.physical.contains_key(device) by {
            assert(outputs.contains((route, device, key)));
        }
        lemma_handoff_outputs(after, left, routes);
    }
}

/// Once every key is let go, no output shows a pressed key.
pub proof fn released_keys_leave_outputs_empty(router: RouterView, outputs: Outputs)
    requires
        consistent(router, outputs),
        forall|device: usize| #[trigger] router.held(device) == Set::<Key>::empty(),
    ensures
        outputs == Set::<(Route, usize, Key)>::empty(),
{
    assert forall|entry: (Route, usize, Key)| !#[trigger] outputs.contains(entry) by {
        if outputs.contains(entry) {
            assert(outputs.contains((entry.0, entry.1, entry.2)));
            assert(router.held(entry.1).contains(entry.2));
        }
    }
    assert(outputs =~= Set::empty());
}

/// A router that was just made is consistent with outputs that show nothing.
pub proof fn new_router_is_consistent(router: RouterView)
    ensures
        consistent(router, Set::empty()),
{
}

/// What a handoff carries over to the new route: of every device the held modifiers, but for the
/// trigger and, where chords are consumed, the keys of chords. It blocks all other held keys.
pub proof fn handoff_carries_modifiers(
    router: RouterView,
    at: int,
    routes: Seq<Route>,
    device: usize,
    key: Key,
)
    requires
        router.valid(),
        0 <= at < router.bindings.len(),
        router.held(device).contains(key),
    ensures
        ({
            let after = router.handed_over(at, routes);
            let carried = key.modifies() && key != router.bindings[at].trigger && (router.propagate
                || !router.switch_keys().contains(key));
            &&& after.desired(device, ReconcileMode::Handoff).contains(key) == carried
            &&& after.is_blocked(device, key) == !carried
        }),
{
    let after = router.handed_over(at, routes);
    let trigger = Some(router.bindings[at].trigger);
    lemma_handoff_suppresses(router, at, routes);
    crate::routing::lemma_same_bindings(router, after);
    if router.suppressed(device, trigger).contains(key) {
        assert(router.suppressed(device, trigger) != Set::<Key>::empty());
    }
}

/// A handoff leaves exactly the carried modifiers down, on the new route, and lets go of everything
/// else on every output: a modifier is carried where it is held, is not the trigger, and is no key
/// of a chord where those are consumed.
pub proof fn handoff_moves_modifiers_alone(
    router: RouterView,
    at: int,
    routes: Seq<Route>,
    outputs: Outputs,
)
    requires
        router.valid(),
        0 <= at < router.bindings.len(),
        routes.contains(0),
        forall|route: Route, device: usize, key: Key| #[trigger]
            outputs.contains((route, device, key)) ==> routes.contains(route)
                && router.physical.contains_key(device),
    ensures
        ({
            let after = router.handed_over(at, routes);
            applied_all(outputs, after.reconciled(routes, ReconcileMode::Handoff)) == Set::new(
                |entry: (Route, usize, Key)|
                    entry.0 == after.current && router.held(entry.1).contains(entry.2)
                        && entry.2.modifies() && entry.2 != router.bindings[at].trigger && (
                    router.propagate || !router.switch_keys().contains(entry.2)),
            )
        }),
{
    let after = router.handed_over(at, routes);
    lemma_next_route(routes, router.current);
    lemma_handoff_suppresses(router, at, routes);
    lemma_handoff_outputs(after, outputs, routes);
    let shown = applied_all(outputs, after.reconciled(routes, ReconcileMode::Handoff));
    let target = Set::new(
        |entry: (Route, usize, Key)|
            entry.0 == after.current && router.held(entry.1).contains(entry.2)
                && entry.2.modifies() && entry.2 != router.bindings[at].trigger && (
            router.propagate || !router.switch_keys().contains(entry.2)),
    );
    assert forall|entry: (Route, usize, Key)| #[trigger] shown.contains(entry) <==> target.contains(
        entry,
    ) by {
        if router.held(entry.1).contains(entry.2) {
            handoff_carries_modifiers(router, at, routes, entry.1, entry.2);
        }
    }
    assert(shown =~= target);
}

/// The removal of a device concerns that device alone: the keys and the blocks of the others stay,
/// and so does the route.
pub proof fn removal_concerns_one_device(router: RouterView, device: usize, other: usize, key: Key)
    requires
        other != device,
    ensures
        router.without_device(device).current == router.current,
        router.without_device(device).held(other) == router.held(other),
        router.without_device(device).is_blocked(other, key) == router.is_blocked(other, key),
{
}

/// The input moves to another route only when the trigger of a chord goes down while all keys of
/// the chord are held and no chord is active. It then goes to the next route.
pub proof fn only_a_chord_switches(
    frame: FrameView,
    device: usize,
    event: Event,
    routes: Seq<Route>,
)
    requires
        frame.router.valid(),
        frame.step(device, event, routes).router.current != frame.router.current,
    ensures
        frame.router.active is None,
        frame.step(device, event, routes).router.current == crate::routing::route_after(
            routes,
            frame.router.current,
        ),
        event matches Event::Key(KeyEvent { key, down: true }) && {
            let moved = frame.router.with_key(device, key, true);
            exists|at: int|
                0 <= at < moved.bindings.len() && #[trigger] moved.bindings[at].trigger == key
                    && moved.bindings[at].keys.subset_of(moved.pressed())
        },
{
    if let Event::Key(KeyEvent { key, down: true }) = event {
        let moved = frame.router.with_key(device, key, true);
        if moved.completed(key) is Some {
            let at = moved.completed(key).unwrap();
            assert(moved.completes_first(at, key));
            assert(moved.bindings[at].trigger == key);
        }
    }
}

/// A held trigger that completes a chord switches, unless it is blocked or a chord is active.
pub proof fn every_chord_switches(
    frame: FrameView,
    device: usize,
    key: Key,
    at: int,
    routes: Seq<Route>,
)
    requires
        frame.router.active is None,
        !frame.router.is_blocked(device, key),
        0 <= at < frame.router.bindings.len(),
        frame.router.bindings[at].trigger == key,
        frame.router.bindings[at].keys.subset_of(
            frame.router.with_key(device, key, true).pressed(),
        ),
    ensures
        frame.step(
            device,
            Event::Key(KeyEvent { key, down: true }),
            routes,
        ).router.current == crate::routing::route_after(routes, frame.router.current),
        frame.step(device, Event::Key(KeyEvent { key, down: true }), routes).router.active is Some,
{
    let moved = frame.router.with_key(device, key, true);
    assert(moved.completes(at, key));
    let first = lemma_first_completed(moved, at, key);
    assert(moved.completes_first(first, key));
}

pub(crate) proof fn lemma_first_completed(router: RouterView, at: int, key: Key) -> (first: int)
    requires
        0 <= at < router.bindings.len(),
        router.completes(at, key),
    ensures
        router.completes_first(first, key),
    decreases at,
{
    if exists|other: int| 0 <= other < at && router.completes(other, key) {
        let other = choose|other: int| 0 <= other < at && router.completes(other, key);
        lemma_first_completed(router, other, key)
    } else {
        at
    }
}

/// A chord switches once: while it is active, no event moves the input to another route. It stays
/// active until none of its keys is held.
pub proof fn an_active_chord_does_not_switch_again(
    frame: FrameView,
    device: usize,
    event: Event,
    routes: Seq<Route>,
)
    requires
        frame.router.active is Some,
    ensures
        ({
            let router = frame.router;
            let after = frame.step(device, event, routes).router;
            &&& after.current == router.current
            &&& after.active == router.active || (after.active is None
                && router.bindings[router.active->0].keys.disjoint(after.pressed()))
        }),
{
    let router = frame.router;
    let after = frame.step(device, event, routes).router;
    if let Event::Key(KeyEvent { key, down }) = event {
        let moved = router.with_key(device, key, down);
        assert(after.pressed() =~= moved.pressed());
        assert(moved.without_block(device, key).pressed() =~= moved.pressed());
    }
}

/// The chord switches through all routes in turn and back to the local machine.
pub proof fn switching_goes_round(routes: Seq<Route>, at: int)
    requires
        crate::devices::ascending(routes),
        0 <= at < routes.len(),
    ensures
        crate::routing::route_after(routes, routes[at]) == if at + 1 < routes.len() {
            routes[at + 1]
        } else {
            0
        },
    decreases routes.len(),
{
    let rest = routes.drop_first();
    reveal_with_fuel(crate::routing::route_after, 2);
    if at == 0 {
        assert(!(routes[0] > routes[at]));
        if rest.len() > 0 {
            assert(rest[0] == routes[1]);
        }
    } else {
        assert(routes[0] < routes[at]);
        assert(rest[at - 1] == routes[at]);
        assert(crate::devices::ascending(rest)) by {
            assert forall|left: int, right: int| 0 <= left < right < rest.len() implies rest[left]
                < rest[right] by {
                assert(routes[left + 1] < routes[right + 1]);
            }
        }
        switching_goes_round(rest, at - 1);
        if at + 1 < routes.len() {
            assert(rest[at] == routes[at + 1]);
        }
    }
}

/// A blocked key that goes down again, or up, is shown to no output. It is blocked until it goes
/// up.
pub proof fn blocked_keys_are_hidden(
    frame: FrameView,
    device: usize,
    key: Key,
    down: bool,
    routes: Seq<Route>,
)
    requires
        frame.router.is_blocked(device, key),
    ensures
        ({
            let after = frame.step(device, Event::Key(KeyEvent { key, down }), routes);
            &&& after.pending == frame.pending
            &&& after.actions == frame.actions
            &&& after.router.current == frame.router.current
            &&& after.router.is_blocked(device, key) == down
        }),
{
}

proof fn lemma_block_survives_step(
    frame: FrameView,
    device: usize,
    key: Key,
    from: usize,
    event: Event,
    routes: Seq<Route>,
)
    requires
        blocks_held_keys(frame.router),
    ensures
        blocks_held_keys(frame.step(from, event, routes).router),
        frame.router.is_blocked(device, key) && !key.modifies() && !(from == device && event
            == Event::Key(KeyEvent { key, down: false })) ==> frame.step(
            from,
            event,
            routes,
        ).router.is_blocked(device, key),
{
    let router = frame.router;
    let after = frame.step(from, event, routes).router;
    if let Event::Key(KeyEvent { key: moving, down }) = event {
        let moved = router.with_key(from, moving, down);
        assert forall|other: usize, held: Key| #[trigger]
            moved.is_blocked(other, held) && !(other == from && held == moving)
            implies moved.held(other).contains(held) by {
            assert(router.is_blocked(other, held));
        }
        if router.is_blocked(from, moving) {
            assert forall|other: usize, held: Key| #[trigger]
                after.is_blocked(other, held) implies after.held(other).contains(held) by {
                assert(router.is_blocked(other, held));
            }
        } else if !router.is_active_trigger(moving) && down && router.active is None
            && moved.completed(moving) is Some {
            let at = moved.completed(moving).unwrap();
            if router.is_blocked(device, key) && !key.modifies() {
                assert(moved.held(device).contains(key));
                let trigger = Some(moved.bindings[at].trigger);
                assert(moved.suppressed(device, trigger).contains(key));
                assert(moved.suppressed(device, trigger) != Set::<Key>::empty());
                assert(after.is_blocked(device, key));
            }
        } else {
            assert forall|other: usize, held: Key| #[trigger]
                after.is_blocked(other, held) implies after.held(other).contains(held) by {
                assert(router.is_blocked(other, held));
            }
        }
    }
}

proof fn lemma_block_survives_steps(
    frame: FrameView,
    device: usize,
    key: Key,
    from: usize,
    events: Seq<Event>,
    routes: Seq<Route>,
)
    requires
        blocks_held_keys(frame.router),
    ensures
        blocks_held_keys(frame.steps(from, events, routes).router),
        frame.router.is_blocked(device, key) && !key.modifies() && !(from == device
            && events.contains(Event::Key(KeyEvent { key, down: false }))) ==> frame.steps(
            from,
            events,
            routes,
        ).router.is_blocked(device, key),
    decreases events.len(),
{
    if events.len() > 0 {
        let shorter = events.drop_last();
        lemma_block_survives_steps(frame, device, key, from, shorter, routes);
        lemma_block_survives_step(
            frame.steps(from, shorter, routes),
            device,
            key,
            from,
            events.last(),
            routes,
        );
        let release = Event::Key(KeyEvent { key, down: false });
        if shorter.contains(release) {
            let at = choose|at: int| 0 <= at < shorter.len() && shorter[at] == release;
            assert(events[at] == release);
        }
        assert(events.contains(events.last()));
    }
}

/// A blocked key that is no modifier stays blocked through every frame, switches among them, until
/// it is let go on its device. Blocked keys are always held keys.
pub proof fn blocks_last_until_release(
    router: RouterView,
    device: usize,
    key: Key,
    from: usize,
    events: Seq<Event>,
    routes: Seq<Route>,
)
    requires
        blocks_held_keys(router),
        router.is_blocked(device, key),
        !key.modifies(),
        from != device || !events.contains(Event::Key(KeyEvent { key, down: false })),
    ensures
        blocks_held_keys(router.after_frame(from, events, routes)),
        router.after_frame(from, events, routes).is_blocked(device, key),
{
    let start = FrameView { router: router.knowing(from), pending: seq![], actions: seq![] };
    assert forall|other: usize, held: Key| #[trigger]
        start.router.is_blocked(other, held) implies start.router.held(other).contains(held) by {
        assert(router.is_blocked(other, held));
    }
    assert(start.router.is_blocked(device, key) == router.is_blocked(device, key));
    lemma_block_survives_steps(start, device, key, from, events, routes);
}

/// Every operation of a router keeps its blocked keys among the held ones.
pub proof fn blocked_keys_are_held(
    router: RouterView,
    device: usize,
    pressed: Set<Key>,
    events: Seq<Event>,
    routes: Seq<Route>,
)
    requires
        blocks_held_keys(router),
    ensures
        blocks_held_keys(router.with_device(device, pressed)),
        blocks_held_keys(router.with_device_reset(device, pressed)),
        blocks_held_keys(router.without_device(device)),
        blocks_held_keys(router.rehomed()),
        blocks_held_keys(router.after_frame(device, events, routes)),
{
    let added = router.with_device(device, pressed);
    assert forall|other: usize, key: Key| #[trigger]
        added.is_blocked(other, key) implies added.held(other).contains(key) by {
        if other != device {
            assert(router.is_blocked(other, key));
        }
    }
    let reset = router.with_device_reset(device, pressed);
    assert forall|other: usize, key: Key| #[trigger]
        reset.is_blocked(other, key) implies reset.held(other).contains(key) by {
        assert(added.is_blocked(other, key));
    }
    let removed = router.without_device(device);
    assert forall|other: usize, key: Key| #[trigger]
        removed.is_blocked(other, key) implies removed.held(other).contains(key) by {
        assert(router.is_blocked(other, key));
    }
    let start = FrameView { router: router.knowing(device), pending: seq![], actions: seq![] };
    assert forall|other: usize, held: Key| #[trigger]
        start.router.is_blocked(other, held) implies start.router.held(other).contains(held) by {
        assert(router.is_blocked(other, held));
    }
    lemma_block_survives_steps(
        start,
        device,
        Key::Key(crate::key::Keyboard::A),
        device,
        events,
        routes,
    );
}

proof fn lemma_outputs_of_frame(frame: FrameView, device: usize, outputs: Outputs)
    requires
        waits_for_current(frame),
    ensures
        applied_all(
            outputs,
            frame.actions + crate::routing::flushed(device, frame.pending),
        ) == outputs_of(frame, device, outputs),
{
    lemma_flushed(
        applied_all(outputs, frame.actions),
        frame.router.current,
        device,
        frame.pending,
    );
    lemma_applied_in_turn(
        outputs,
        frame.actions,
        crate::routing::flushed(device, frame.pending),
    );
}

/// What the outputs show follows the events: a key that is shown goes down or up on the current
/// route, for its device alone. A switch leaves nothing down on any output but, on the new route,
/// the modifiers that are down on the devices: not the trigger, and no key of a chord where those
/// are consumed. No other event changes an output.
pub proof fn outputs_follow_the_events(
    router: RouterView,
    outputs: Outputs,
    device: usize,
    events: Seq<Event>,
    event: Event,
    routes: Seq<Route>,
    route: Route,
    other: usize,
    key: Key,
)
    requires
        router.valid(),
        consistent(router, outputs),
        routes.contains(0),
        routes.contains(router.current),
    ensures
        applied_all(outputs, router.frame_actions(device, Seq::<Event>::empty(), routes))
            == outputs,
        ({
            let middle = router.after_frame(device, events, routes);
            let after = router.after_frame(device, events.push(event), routes);
            let before = applied_all(outputs, router.frame_actions(device, events, routes));
            let shown = applied_all(
                outputs,
                router.frame_actions(device, events.push(event), routes),
            );
            shown.contains((route, other, key)) == if crate::frame_laws::switches(
                middle,
                device,
                event,
            ) {
                route == after.current && crate::frame_laws::is_down(after, other, key)
                    && key.modifies() && event != Event::Key(KeyEvent { key, down: true }) && (
                router.propagate || !crate::frame_laws::is_chord_key(router, key))
            } else if crate::frame_laws::is_shown(middle, device, event) && route == middle.current
                && other == device && event == Event::Key(KeyEvent { key, down: true }) {
                true
            } else if crate::frame_laws::is_shown(middle, device, event) && route == middle.current
                && other == device && event == Event::Key(KeyEvent { key, down: false }) {
                false
            } else {
                before.contains((route, other, key))
            }
        }),
{
    let start = FrameView { router: router.knowing(device), pending: seq![], actions: seq![] };
    let middle = start.steps(device, events, routes);
    let longer = events.push(event);
    let end = start.steps(device, longer, routes);
    assert(longer.drop_last() =~= events);
    crate::routing::lemma_same_bindings(router, start.router);
    assert(crate::routing::events_of(start.pending) =~= Seq::<Event>::empty());
    lemma_keys_unchanged(outputs, router.current, device);
    assert(outputs_of(start, device, outputs) == outputs);
    lemma_outputs_after_steps(start, device, events, routes, outputs);
    lemma_outputs_after_steps(start, device, longer, routes, outputs);
    lemma_outputs_of_frame(start, device, outputs);
    lemma_outputs_of_frame(middle, device, outputs);
    lemma_outputs_of_frame(end, device, outputs);
    crate::frame_laws::lemma_same_chords(start, device, events, routes);
    let base = applied_all(outputs, middle.actions);
    let shown = outputs_of(middle, device, outputs);
    lemma_flushed(base, middle.router.current, device, middle.pending);
    lemma_applied_in_turn(
        outputs,
        middle.actions,
        crate::routing::flushed(device, middle.pending),
    );
    let one_more = FrameView {
        pending: middle.pending.push((middle.router.current, event)),
        ..middle
    };
    match event {
        Event::Sync(SyncEvent::All) => {
            assert(crate::routing::events_of(end.pending) =~= Seq::<Event>::empty());
            lemma_keys_unchanged(shown, middle.router.current, device);
        },
        Event::Key(KeyEvent { key: moving, down }) => {
            crate::frame_laws::lemma_chord(middle.router, device, moving);
            let moved = middle.router.with_key(device, moving, down);
            assert(middle.router.switch_keys().contains(moving) == crate::frame_laws::is_chord_key(
                middle.router,
                moving,
            ));
            if crate::frame_laws::switches(middle.router, device, event) {
                let at = moved.completed(moving).unwrap();
                assert(moved.completes_first(at, moving));
                let pending = if middle.router.propagate {
                    one_more.pending
                } else {
                    middle.pending
                };
                let flushed = crate::routing::flushed(device, pending);
                let handed = moved.handed_over(at, routes);
                lemma_flushed(base, middle.router.current, device, pending);
                lemma_applied_in_turn(outputs, middle.actions, flushed);
                lemma_applied_in_turn(
                    outputs,
                    middle.actions + flushed,
                    handed.reconciled(routes, ReconcileMode::Handoff),
                );
                let replayed = applied_all(outputs, middle.actions + flushed);
                assert forall|to: Route, from: usize, held: Key| #[trigger]
                    replayed.contains((to, from, held)) implies routes.contains(to)
                    && moved.physical.contains_key(from) by {
                    if to != middle.router.current || from != device {
                        assert(shown.contains((to, from, held)));
                    }
                }
                handoff_moves_modifiers_alone(moved, at, routes, replayed);
                assert(crate::routing::events_of(end.pending) =~= Seq::<Event>::empty());
                let result = applied_all(
                    replayed,
                    handed.reconciled(routes, ReconcileMode::Handoff),
                );
                lemma_keys_unchanged(result, handed.current, device);
                assert(outputs_of(end, device, outputs) == result);
                crate::routing::lemma_same_bindings(middle.router, moved);
                assert(moved.switch_keys().contains(key) == crate::frame_laws::is_chord_key(
                    router,
                    key,
                ));
                assert(moved.held(other).contains(key) == crate::frame_laws::is_down(
                    end.router,
                    other,
                    key,
                ));
            } else if crate::frame_laws::is_shown(middle.router, device, event) {
                lemma_replayed_one_more(middle, device, event, outputs);
                assert(outputs_of(end, device, outputs) == outputs_of(one_more, device, outputs));
            } else {
                assert(outputs_of(end, device, outputs) == shown);
            }
        },
        _ => {
            lemma_replayed_one_more(middle, device, event, outputs);
            assert(outputs_of(end, device, outputs) =~= shown);
        },
    }
}

/// Adding a device, or taking over its keys anew, leaves of it exactly the keys down that are held
/// and no trigger, on the current route. The other devices are not touched.
pub proof fn new_devices_show_their_keys(
    router: RouterView,
    outputs: Outputs,
    device: usize,
    pressed: Set<Key>,
    routes: Seq<Route>,
    route: Route,
    other: usize,
    key: Key,
)
    requires
        routes.contains(route),
    ensures
        ({
            let added = router.with_device(device, pressed);
            let reset = router.with_device_reset(device, pressed);
            let expected = if other == device {
                route == router.current && pressed.contains(key) && !crate::frame_laws::is_trigger(
                    router,
                    key,
                )
            } else {
                outputs.contains((route, other, key))
            };
            &&& applied_all(
                outputs,
                added.device_reconciled(device, routes, ReconcileMode::Recovery),
            ).contains((route, other, key)) == expected
            &&& applied_all(
                outputs,
                reset.device_reconciled(device, routes, ReconcileMode::Recovery),
            ).contains((route, other, key)) == expected
        }),
{
    let added = router.with_device(device, pressed);
    let reset = router.with_device_reset(device, pressed);
    assert(reset.desired(device, ReconcileMode::Recovery) =~= added.desired(
        device,
        ReconcileMode::Recovery,
    ));
    assert(reset.device_reconciled(device, routes, ReconcileMode::Recovery)
        =~= added.device_reconciled(device, routes, ReconcileMode::Recovery));
    lemma_device_reconciled(added, outputs, device, routes, ReconcileMode::Recovery);
    let blocked = pressed.intersect(router.trigger_keys());
    assert(router.trigger_keys().contains(key) == crate::frame_laws::is_trigger(router, key));
    assert(blocked.contains(key) == (pressed.contains(key) && crate::frame_laws::is_trigger(
        router,
        key,
    )));
}

/// When the current route is lost, nothing stays down on the outputs that are left but, on the
/// local machine, the modifiers that are down on the devices: not the trigger of the active chord,
/// and no key of a chord where those are consumed.
pub proof fn lost_routes_leave_only_modifiers(
    router: RouterView,
    outputs: Outputs,
    routes: Seq<Route>,
    route: Route,
    device: usize,
    key: Key,
)
    requires
        router.valid(),
        consistent(router, outputs),
        routes.contains(0),
        !routes.contains(router.current),
    ensures
        applied_all(
            retained(outputs, routes),
            router.rehomed().reconciled(routes, ReconcileMode::Handoff),
        ).contains((route, device, key)) == (route == 0 && crate::frame_laws::is_down(
            router,
            device,
            key,
        ) && key.modifies() && !crate::frame_laws::triggers_active(router, key) && (router.propagate
            || !crate::frame_laws::is_chord_key(router, key))),
{
    let left = retained(outputs, routes);
    let after = router.rehomed();
    crate::routing::lemma_same_bindings(router, after);
    crate::routing::lemma_same_suppressed(router, after, router.active_trigger());
    assert(after.blocked == after.blocked_by_handoff(after.active_trigger()));
    assert forall|to: Route, from: usize, held: Key| #[trigger]
        left.contains((to, from, held)) implies routes.contains(to)
        && after.physical.contains_key(from) by {
        assert(outputs.contains((to, from, held)));
    }
    lemma_handoff_outputs(after, left, routes);
    crate::frame_laws::the_local_machine_takes_over(router, device, key);
    assert(after.held(device).contains(key) == crate::frame_laws::is_down(router, device, key));
}

} // verus!
