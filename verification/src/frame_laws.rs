//! What becomes of the events of a frame, one by one, and of the keys, the blocks and the route of a
//! router.

use vstd::prelude::*;

use crate::event::{Event, SyncEvent};
use crate::key::{Key, KeyEvent, Keyboard};
use crate::routing::{ActionView, FrameView, ReconcileMode, Route, RouterView};

verus! {

/// Whether an event is the end mark of a frame.
pub open spec fn is_mark(event: Event) -> bool {
    event == Event::Sync(SyncEvent::All)
}

/// What some events of a device show on a route, end marks aside.
pub open spec fn shown_of(route: Route, device: usize, events: Seq<Event>) -> Seq<
    (Route, usize, Event),
>
    decreases events.len(),
{
    if events.len() == 0 {
        seq![]
    } else {
        let before = shown_of(route, device, events.drop_last());
        if is_mark(events.last()) {
            before
        } else {
            before.push((route, device, events.last()))
        }
    }
}

/// What some actions show: each event with its route and its device, in order, end marks aside.
pub open spec fn shown(actions: Seq<ActionView>) -> Seq<(Route, usize, Event)>
    decreases actions.len(),
{
    if actions.len() == 0 {
        seq![]
    } else {
        let before = shown(actions.drop_last());
        match actions.last() {
            ActionView::Events { route, device_id, events } => before + shown_of(
                route,
                device_id,
                events,
            ),
            ActionView::SetKeyState { .. } => before,
        }
    }
}

/// The actions that set the keys of a device, in order.
pub open spec fn states(actions: Seq<ActionView>) -> Seq<ActionView>
    decreases actions.len(),
{
    if actions.len() == 0 {
        seq![]
    } else {
        let before = states(actions.drop_last());
        if actions.last() is SetKeyState {
            before.push(actions.last())
        } else {
            before
        }
    }
}

/// Whether a key is down on a device.
pub open spec fn is_down(router: RouterView, device: usize, key: Key) -> bool {
    router.physical.contains_key(device) && router.physical[device].contains(key)
}

/// Whether a key is down on some device.
pub open spec fn is_down_somewhere(router: RouterView, key: Key) -> bool {
    exists|device: usize| #[trigger] is_down(router, device, key)
}

/// Whether a key of a device is kept from the outputs.
pub open spec fn is_hidden(router: RouterView, device: usize, key: Key) -> bool {
    router.blocked.contains_key(device) && router.blocked[device].contains(key)
}

/// Whether a key is the trigger of the chord that is active.
pub open spec fn triggers_active(router: RouterView, key: Key) -> bool {
    router.active matches Some(at) && router.bindings[at].trigger == key
}

/// Whether a key belongs to a chord.
pub open spec fn is_chord_key(router: RouterView, key: Key) -> bool {
    exists|at: int|
        0 <= at < router.bindings.len() && (#[trigger] router.bindings[at]).keys.contains(key)
}

/// Whether a key is the trigger of a chord.
pub open spec fn is_trigger(router: RouterView, key: Key) -> bool {
    exists|at: int| 0 <= at < router.bindings.len() && (#[trigger] router.bindings[at]).trigger == key
}

/// Whether all keys of a chord are down once one more is.
pub open spec fn is_whole(router: RouterView, at: int, pressed: Key) -> bool {
    forall|key: Key| #[trigger]
        router.bindings[at].keys.contains(key) ==> key == pressed || is_down_somewhere(router, key)
}

/// Whether a key that goes down triggers a chord whose other keys are down.
pub open spec fn makes_chord(router: RouterView, key: Key) -> bool {
    exists|at: int|
        0 <= at < router.bindings.len() && (#[trigger] router.bindings[at]).trigger == key
            && is_whole(router, at, key)
}

/// Whether an event of a device moves the input on to the next route.
pub open spec fn switches(router: RouterView, device: usize, event: Event) -> bool {
    event matches Event::Key(KeyEvent { key, down: true }) && router.active is None && !is_hidden(
        router,
        device,
        key,
    ) && makes_chord(router, key)
}

/// Whether an event of a device is shown to the output.
pub open spec fn is_shown(router: RouterView, device: usize, event: Event) -> bool {
    match event {
        Event::Sync(SyncEvent::All) => false,
        Event::Key(KeyEvent { key, .. }) => {
            &&& !is_hidden(router, device, key)
            &&& !triggers_active(router, key)
            &&& router.propagate || !is_chord_key(router, key) && !switches(router, device, event)
        },
        _ => true,
    }
}

proof fn lemma_shown_together(first: Seq<ActionView>, second: Seq<ActionView>)
    ensures
        shown(first + second) == shown(first) + shown(second),
        states(first + second) == states(first) + states(second),
    decreases second.len(),
{
    if second.len() == 0 {
        assert(first + second =~= first);
        assert(shown(first) + shown(second) =~= shown(first));
        assert(states(first) + states(second) =~= states(first));
    } else {
        let all = first + second;
        assert(all.drop_last() =~= first + second.drop_last());
        lemma_shown_together(first, second.drop_last());
        assert(shown(all) =~= shown(first) + shown(second));
        assert(states(all) =~= states(first) + states(second));
    }
}

/// A queue of events with its device.
spec fn queued(device: usize, pending: Seq<(Route, Event)>) -> Seq<(Route, usize, Event)> {
    pending.map_values(|entry: (Route, Event)| (entry.0, device, entry.1))
}

spec fn has_no_marks(pending: Seq<(Route, Event)>) -> bool {
    forall|at: int| 0 <= at < pending.len() ==> !is_mark((#[trigger] pending[at]).1)
}

proof fn lemma_shown_run(route: Route, device: usize, pending: Seq<(Route, Event)>)
    requires
        has_no_marks(pending),
        forall|at: int| 0 <= at < pending.len() ==> (#[trigger] pending[at]).0 == route,
    ensures
        shown_of(route, device, crate::routing::events_of(pending)) == queued(device, pending),
    decreases pending.len(),
{
    let events = crate::routing::events_of(pending);
    if pending.len() == 0 {
        assert(events =~= Seq::<Event>::empty());
        assert(queued(device, pending) =~= Seq::<(Route, usize, Event)>::empty());
    } else {
        let before = pending.drop_last();
        assert forall|at: int| 0 <= at < before.len() implies !is_mark((#[trigger] before[at]).1)
            && before[at].0 == route by {
            assert(before[at] == pending[at]);
        }
        lemma_shown_run(route, device, before);
        assert(events.drop_last() =~= crate::routing::events_of(before));
        assert(pending[pending.len() - 1].0 == route);
        assert(queued(device, pending) =~= queued(device, before).push(
            (route, device, events.last()),
        ));
    }
}

proof fn lemma_shown_flushed(device: usize, pending: Seq<(Route, Event)>)
    requires
        has_no_marks(pending),
    ensures
        shown(crate::routing::flushed(device, pending)) == queued(device, pending),
        states(crate::routing::flushed(device, pending)) == Seq::<ActionView>::empty(),
    decreases pending.len(),
{
    if pending.len() == 0 {
        assert(queued(device, pending) =~= Seq::<(Route, usize, Event)>::empty());
    } else {
        crate::routing::lemma_run_length(pending);
        let run = crate::routing::run_length(pending) as int;
        let first = pending.take(run);
        let rest = pending.skip(run);
        assert forall|at: int| 0 <= at < rest.len() implies !is_mark((#[trigger] rest[at]).1) by {
            assert(rest[at] == pending[run + at]);
        }
        assert forall|at: int| 0 <= at < first.len() implies !is_mark((#[trigger] first[at]).1)
            && first[at].0 == pending[0].0 by {
            assert(first[at] == pending[at]);
        }
        lemma_shown_flushed(device, rest);
        lemma_shown_run(pending[0].0, device, first);
        let events = crate::routing::events_of(first).push(Event::Sync(SyncEvent::All));
        let action = ActionView::Events { route: pending[0].0, device_id: device, events };
        assert(events.drop_last() =~= crate::routing::events_of(first));
        let alone = seq![action];
        assert(alone.drop_last() =~= Seq::<ActionView>::empty());
        assert(shown(alone.drop_last()) =~= Seq::<(Route, usize, Event)>::empty());
        assert(shown(alone) =~= queued(device, first));
        lemma_shown_together(alone, crate::routing::flushed(device, rest));
        assert(queued(device, pending) =~= queued(device, first) + queued(device, rest));
        assert(states(alone.drop_last()) =~= Seq::<ActionView>::empty());
        assert(states(alone) =~= Seq::<ActionView>::empty());
    }
}

spec fn all_states(actions: Seq<ActionView>) -> bool {
    forall|at: int| 0 <= at < actions.len() ==> (#[trigger] actions[at]) is SetKeyState
}

proof fn lemma_shown_states(actions: Seq<ActionView>)
    requires
        all_states(actions),
    ensures
        shown(actions) == Seq::<(Route, usize, Event)>::empty(),
        states(actions) == actions,
    decreases actions.len(),
{
    if actions.len() > 0 {
        let before = actions.drop_last();
        assert forall|at: int| 0 <= at < before.len() implies (#[trigger] before[at]) is SetKeyState by {
            assert(before[at] == actions[at]);
        }
        assert(actions[actions.len() - 1] is SetKeyState);
        lemma_shown_states(before);
        assert(states(actions) =~= actions);
    }
}

proof fn lemma_releases_are_states(router: RouterView, routes: Seq<Route>)
    ensures
        all_states(router.inactive_releases(routes)),
    decreases routes.len(),
{
    if routes.len() > 0 {
        lemma_releases_are_states(router, routes.drop_last());
    }
}

proof fn lemma_reconciled_are_states(router: RouterView, routes: Seq<Route>, mode: ReconcileMode)
    ensures
        all_states(router.reconciled(routes, mode)),
{
    lemma_releases_are_states(router, routes);
}

proof fn lemma_pressed(router: RouterView, device: usize, pressed: Key, key: Key)
    ensures
        router.with_key(device, pressed, true).pressed().contains(key) <==> key == pressed
            || is_down_somewhere(router, key),
{
    let moved = router.with_key(device, pressed, true);
    if key == pressed {
        assert(moved.physical.contains_key(device));
    } else {
        if is_down_somewhere(router, key) {
            let other = choose|other: usize| #[trigger] is_down(router, other, key);
            assert(moved.physical.contains_key(other));
        }
        if moved.pressed().contains(key) {
            let other = choose|other: usize| #[trigger]
                moved.physical.contains_key(other) && moved.physical[other].contains(key);
            assert(is_down(router, other, key));
        }
    }
}

proof fn lemma_completes(router: RouterView, device: usize, key: Key, at: int)
    ensures
        router.with_key(device, key, true).completes(at, key) <==> router.bindings[at].trigger == key
            && is_whole(router, at, key),
{
    let moved = router.with_key(device, key, true);
    if router.bindings[at].trigger == key {
        assert forall|other: Key| #[trigger] router.bindings[at].keys.contains(
            other,
        ) implies moved.pressed().contains(other) == (other == key || is_down_somewhere(
            router,
            other,
        )) by {
            lemma_pressed(router, device, key, other);
        }
    }
}

/// The chord that a key makes: the first one.
pub(crate) proof fn lemma_chord(router: RouterView, device: usize, key: Key)
    ensures
        makes_chord(router, key) <==> router.with_key(device, key, true).completed(key) is Some,
        router.with_key(device, key, true).completed(key) matches Some(at) ==> {
            &&& 0 <= at < router.bindings.len()
            &&& router.bindings[at].trigger == key
            &&& is_whole(router, at, key)
            &&& forall|other: int|
                0 <= other < at ==> !((#[trigger] router.bindings[other]).trigger == key
                    && is_whole(router, other, key))
        },
{
    let moved = router.with_key(device, key, true);
    if makes_chord(router, key) {
        let at = choose|at: int|
            0 <= at < router.bindings.len() && (#[trigger] router.bindings[at]).trigger == key
                && is_whole(router, at, key);
        lemma_completes(router, device, key, at);
        let first = crate::routing_laws::lemma_first_completed(moved, at, key);
        assert(moved.completes_first(first, key));
    }
    if let Some(at) = moved.completed(key) {
        assert(moved.completes_first(at, key));
        lemma_completes(router, device, key, at);
        assert(router.bindings[at].trigger == key);
        assert forall|other: int| 0 <= other < at implies !((
        #[trigger] router.bindings[other]).trigger == key && is_whole(router, other, key)) by {
            lemma_completes(router, device, key, other);
            assert(!moved.completes(other, key));
        }
    }
}

proof fn lemma_shown_step(frame: FrameView, device: usize, event: Event, routes: Seq<Route>)
    requires
        has_no_marks(frame.pending),
    ensures
        ({
            let after = frame.step(device, event, routes);
            let shown_before = shown(frame.actions) + queued(device, frame.pending);
            &&& has_no_marks(after.pending)
            &&& shown(after.actions) + queued(device, after.pending) == if is_shown(
                frame.router,
                device,
                event,
            ) {
                shown_before.push((frame.router.current, device, event))
            } else {
                shown_before
            }
            &&& !switches(frame.router, device, event) ==> states(after.actions) == states(
                frame.actions,
            )
            &&& switches(frame.router, device, event) ==> states(after.actions) == states(
                frame.actions,
            ) + after.router.reconciled(routes, ReconcileMode::Handoff)
        }),
{
    let router = frame.router;
    let after = frame.step(device, event, routes);
    let longer = frame.pending.push((router.current, event));
    let none = Seq::<(Route, Event)>::empty();
    assert(queued(device, none) =~= Seq::<(Route, usize, Event)>::empty());
    if !is_mark(event) {
        assert forall|at: int| 0 <= at < longer.len() implies !is_mark((#[trigger] longer[at]).1) by {
            if at < frame.pending.len() {
                assert(longer[at] == frame.pending[at]);
            }
        }
    }
    assert(queued(device, longer) =~= queued(device, frame.pending).push(
        (router.current, device, event),
    ));
    assert(shown(frame.actions) + queued(device, longer) =~= (shown(frame.actions) + queued(
        device,
        frame.pending,
    )).push((router.current, device, event)));
    match event {
        Event::Sync(SyncEvent::All) => {
            lemma_shown_flushed(device, frame.pending);
            lemma_shown_together(frame.actions, crate::routing::flushed(device, frame.pending));
            assert(shown(after.actions) + queued(device, none) =~= shown(after.actions));
            assert(states(frame.actions) + Seq::<ActionView>::empty() =~= states(frame.actions));
        },
        Event::Key(KeyEvent { key, down }) => {
            lemma_chord(router, device, key);
            assert(router.switch_keys().contains(key) == is_chord_key(router, key));
            if switches(router, device, event) {
                let pending = if router.propagate {
                    longer
                } else {
                    frame.pending
                };
                lemma_shown_flushed(device, pending);
                let flushed = crate::routing::flushed(device, pending);
                let reconciled = after.router.reconciled(routes, ReconcileMode::Handoff);
                lemma_shown_together(frame.actions, flushed);
                lemma_shown_together(frame.actions + flushed, reconciled);
                lemma_reconciled_are_states(after.router, routes, ReconcileMode::Handoff);
                lemma_shown_states(reconciled);
                assert(shown(frame.actions + flushed) + Seq::<(Route, usize, Event)>::empty()
                    =~= shown(frame.actions + flushed));
                assert(shown(after.actions) + queued(device, none) =~= shown(after.actions));
                assert(states(frame.actions) + Seq::<ActionView>::empty() =~= states(
                    frame.actions,
                ));
                assert(!triggers_active(router, key));
            }
        },
        _ => {},
    }
}

proof fn lemma_shown_steps(frame: FrameView, device: usize, events: Seq<Event>, routes: Seq<Route>)
    requires
        has_no_marks(frame.pending),
    ensures
        has_no_marks(frame.steps(device, events, routes).pending),
    decreases events.len(),
{
    if events.len() > 0 {
        let before = frame.steps(device, events.drop_last(), routes);
        lemma_shown_steps(frame, device, events.drop_last(), routes);
        lemma_shown_step(before, device, events.last(), routes);
    }
}

spec fn frame_start(router: RouterView, device: usize) -> FrameView {
    FrameView { router: router.knowing(device), pending: seq![], actions: seq![] }
}

proof fn lemma_frame_shows(
    router: RouterView,
    device: usize,
    events: Seq<Event>,
    routes: Seq<Route>,
)
    ensures
        ({
            let end = router.framed(device, events, routes);
            &&& has_no_marks(end.pending)
            &&& shown(router.frame_actions(device, events, routes)) == shown(end.actions) + queued(
                device,
                end.pending,
            )
            &&& states(router.frame_actions(device, events, routes)) == states(end.actions)
        }),
{
    let end = router.framed(device, events, routes);
    lemma_shown_steps(frame_start(router, device), device, events, routes);
    lemma_shown_flushed(device, end.pending);
    lemma_shown_together(end.actions, crate::routing::flushed(device, end.pending));
    assert(states(end.actions) + Seq::<ActionView>::empty() =~= states(end.actions));
}

/// Nothing is withheld from the output, and nothing is made up: of a frame, each event in turn is
/// shown once, on the route that is current at its point, unless it is a key that is blocked, the
/// trigger of the active chord, or, where chords are consumed, a key of a chord. Movement, wheels,
/// touches and their marks are always shown.
pub proof fn events_are_shown_in_turn(
    router: RouterView,
    device: usize,
    events: Seq<Event>,
    event: Event,
    routes: Seq<Route>,
)
    ensures
        shown(router.frame_actions(device, Seq::<Event>::empty(), routes)) == Seq::<
            (Route, usize, Event),
        >::empty(),
        ({
            let middle = router.after_frame(device, events, routes);
            let before = shown(router.frame_actions(device, events, routes));
            shown(router.frame_actions(device, events.push(event), routes)) == if is_shown(
                middle,
                device,
                event,
            ) {
                before.push((middle.current, device, event))
            } else {
                before
            }
        }),
{
    lemma_frame_shows(router, device, Seq::empty(), routes);
    lemma_frame_shows(router, device, events, routes);
    lemma_frame_shows(router, device, events.push(event), routes);
    assert(events.push(event).drop_last() =~= events);
    assert(queued(device, Seq::empty()) =~= Seq::<(Route, usize, Event)>::empty());
    lemma_shown_step(router.framed(device, events, routes), device, event, routes);
}

/// The keys of the devices are set on the outputs exactly when an event switches.
pub proof fn keys_are_set_on_a_switch(
    router: RouterView,
    device: usize,
    events: Seq<Event>,
    event: Event,
    routes: Seq<Route>,
)
    ensures
        states(router.frame_actions(device, Seq::<Event>::empty(), routes)) == Seq::<
            ActionView,
        >::empty(),
        ({
            let middle = router.after_frame(device, events, routes);
            let before = states(router.frame_actions(device, events, routes));
            let after = states(router.frame_actions(device, events.push(event), routes));
            &&& !switches(middle, device, event) ==> after == before
            &&& switches(middle, device, event) ==> after.len() >= before.len() && after.take(
                before.len() as int,
            ) == before
        }),
{
    lemma_frame_shows(router, device, Seq::empty(), routes);
    lemma_frame_shows(router, device, events, routes);
    lemma_frame_shows(router, device, events.push(event), routes);
    assert(events.push(event).drop_last() =~= events);
    lemma_shown_step(router.framed(device, events, routes), device, event, routes);
    let before = states(router.frame_actions(device, events, routes));
    let after = states(router.frame_actions(device, events.push(event), routes));
    if switches(router.after_frame(device, events, routes), device, event) {
        assert(after.take(before.len() as int) =~= before);
    }
}

/// A frame of movement, wheels and touches comes out as it went in: one frame for the current
/// route, with the same events and one end mark. The router is as before, but knows the device.
pub proof fn frames_without_keys_come_out_whole(
    router: RouterView,
    device: usize,
    events: Seq<Event>,
    routes: Seq<Route>,
)
    requires
        events.len() > 0,
        forall|at: int|
            0 <= at < events.len() ==> !((#[trigger] events[at]) is Key) && !is_mark(events[at]),
    ensures
        router.frame_actions(device, events.push(Event::Sync(SyncEvent::All)), routes) == seq![
            ActionView::Events {
                route: router.current,
                device_id: device,
                events: events.push(Event::Sync(SyncEvent::All)),
            },
        ],
        router.frame_actions(device, events, routes) == router.frame_actions(
            device,
            events.push(Event::Sync(SyncEvent::All)),
            routes,
        ),
        router.after_frame(device, events, routes).current == router.current,
        router.after_frame(device, events, routes).active == router.active,
        router.after_frame(device, events, routes).blocked == router.blocked,
{
    let mark = Event::Sync(SyncEvent::All);
    let whole = events.push(mark);
    let end = router.framed(device, events, routes);
    lemma_waiting(router, device, events, routes);
    assert(whole.drop_last() =~= events);
    let flushed = crate::routing::flushed(device, end.pending);
    crate::routing::lemma_run_length(end.pending);
    let run = crate::routing::run_length(end.pending) as int;
    if run < end.pending.len() {
        assert(end.pending[run].0 == router.current);
        assert(end.pending[0].0 == router.current);
    }
    assert(end.pending.take(run) =~= end.pending);
    assert(end.pending.skip(run) =~= Seq::<(Route, Event)>::empty());
    assert(crate::routing::events_of(end.pending) =~= events);
    assert(end.pending[0].0 == router.current);
    let action = ActionView::Events { route: router.current, device_id: device, events: whole };
    assert(crate::routing::flushed(device, end.pending.skip(run)) =~= Seq::<ActionView>::empty());
    assert(crate::routing::events_of(end.pending.take(run)).push(mark) =~= whole);
    assert(flushed =~= seq![action] + crate::routing::flushed(device, end.pending.skip(run)));
    assert(flushed =~= seq![action]);
    let none = crate::routing::flushed(device, Seq::empty());
    assert(end.actions + flushed =~= seq![action]);
    assert(end.actions + flushed + none =~= seq![action]);
}

proof fn lemma_waiting(
    router: RouterView,
    device: usize,
    events: Seq<Event>,
    routes: Seq<Route>,
)
    requires
        forall|at: int|
            0 <= at < events.len() ==> !((#[trigger] events[at]) is Key) && !is_mark(events[at]),
    ensures
        ({
            let end = router.framed(device, events, routes);
            &&& end.router == router.knowing(device)
            &&& end.actions == Seq::<ActionView>::empty()
            &&& end.pending == events.map_values(|event: Event| (router.current, event))
        }),
    decreases events.len(),
{
    let end = router.framed(device, events, routes);
    if events.len() == 0 {
        assert(end.pending =~= events.map_values(|event: Event| (router.current, event)));
    } else {
        let before = events.drop_last();
        assert forall|at: int| 0 <= at < before.len() implies !((#[trigger] before[at]) is Key)
            && !is_mark(before[at]) by {
            assert(before[at] == events[at]);
        }
        lemma_waiting(router, device, before, routes);
        assert(!(events[events.len() - 1] is Key) && !is_mark(events[events.len() - 1]));
        assert(end.pending =~= events.map_values(|event: Event| (router.current, event)));
    }
}

spec fn is_closed(action: ActionView, device: usize) -> bool {
    action matches ActionView::Events { device_id, events, .. } ==> {
        &&& device_id == device
        &&& events.len() > 1
        &&& is_mark(events.last())
        &&& forall|at: int| 0 <= at < events.len() - 1 ==> !is_mark(#[trigger] events[at])
    }
}

spec fn all_closed(actions: Seq<ActionView>, device: usize) -> bool {
    forall|at: int| 0 <= at < actions.len() ==> is_closed(#[trigger] actions[at], device)
}

proof fn lemma_all_closed_together(
    first: Seq<ActionView>,
    second: Seq<ActionView>,
    device: usize,
)
    requires
        all_closed(first, device),
        all_closed(second, device),
    ensures
        all_closed(first + second, device),
{
    let all = first + second;
    assert forall|at: int| 0 <= at < all.len() implies is_closed(#[trigger] all[at], device) by {
        if at < first.len() {
            assert(all[at] == first[at]);
        } else {
            assert(all[at] == second[at - first.len()]);
        }
    }
}

proof fn lemma_flushed_closed(device: usize, pending: Seq<(Route, Event)>)
    requires
        has_no_marks(pending),
    ensures
        all_closed(crate::routing::flushed(device, pending), device),
    decreases pending.len(),
{
    if pending.len() > 0 {
        crate::routing::lemma_run_length(pending);
        let run = crate::routing::run_length(pending) as int;
        let first = pending.take(run);
        let rest = pending.skip(run);
        assert forall|at: int| 0 <= at < rest.len() implies !is_mark((#[trigger] rest[at]).1) by {
            assert(rest[at] == pending[run + at]);
        }
        lemma_flushed_closed(device, rest);
        let events = crate::routing::events_of(first).push(Event::Sync(SyncEvent::All));
        let action = ActionView::Events { route: pending[0].0, device_id: device, events };
        assert forall|at: int| 0 <= at < events.len() - 1 implies !is_mark(#[trigger] events[at]) by {
            assert(events[at] == pending[at].1);
        }
        assert(is_closed(action, device));
        lemma_all_closed_together(
            seq![action],
            crate::routing::flushed(device, rest),
            device,
        );
    }
}

proof fn lemma_steps_closed(
    frame: FrameView,
    device: usize,
    events: Seq<Event>,
    routes: Seq<Route>,
)
    requires
        has_no_marks(frame.pending),
        all_closed(frame.actions, device),
    ensures
        all_closed(frame.steps(device, events, routes).actions, device),
    decreases events.len(),
{
    if events.len() > 0 {
        let before = frame.steps(device, events.drop_last(), routes);
        let event = events.last();
        let after = before.step(device, event, routes);
        lemma_steps_closed(frame, device, events.drop_last(), routes);
        lemma_shown_steps(frame, device, events.drop_last(), routes);
        lemma_flushed_closed(device, before.pending);
        lemma_all_closed_together(
            before.actions,
            crate::routing::flushed(device, before.pending),
            device,
        );
        if !is_mark(event) {
            let longer = before.pending.push((before.router.current, event));
            assert forall|at: int| 0 <= at < longer.len() implies !is_mark(
                (#[trigger] longer[at]).1,
            ) by {
                if at < before.pending.len() {
                    assert(longer[at] == before.pending[at]);
                }
            }
            lemma_flushed_closed(device, longer);
            lemma_all_closed_together(
                before.actions,
                crate::routing::flushed(device, longer),
                device,
            );
        }
        let reconciled = after.router.reconciled(routes, ReconcileMode::Handoff);
        lemma_reconciled_are_states(after.router, routes, ReconcileMode::Handoff);
        assert(all_closed(reconciled, device));
        if all_closed(
            before.actions + crate::routing::flushed(device, before.pending),
            device,
        ) {
            lemma_all_closed_together(
                before.actions + crate::routing::flushed(device, before.pending),
                reconciled,
                device,
            );
        }
        if !is_mark(event) {
            lemma_all_closed_together(
                before.actions + crate::routing::flushed(
                    device,
                    before.pending.push((before.router.current, event)),
                ),
                reconciled,
                device,
            );
        }
    }
}

/// Whatever goes out is a whole frame of the device: at least one event, and an end mark after the
/// last.
pub proof fn frames_go_out_closed(
    router: RouterView,
    device: usize,
    events: Seq<Event>,
    routes: Seq<Route>,
    at: int,
)
    requires
        0 <= at < router.frame_actions(device, events, routes).len(),
    ensures
        router.frame_actions(device, events, routes)[at] matches ActionView::Events {
            device_id,
            events: sent,
            ..
        } ==> {
            &&& device_id == device
            &&& sent.len() > 1
            &&& is_mark(sent.last())
            &&& forall|earlier: int|
                0 <= earlier < sent.len() - 1 ==> !is_mark(#[trigger] sent[earlier])
        },
{
    let end = router.framed(device, events, routes);
    lemma_frame_shows(router, device, events, routes);
    lemma_steps_closed(frame_start(router, device), device, events, routes);
    lemma_flushed_closed(device, end.pending);
    lemma_all_closed_together(
        end.actions,
        crate::routing::flushed(device, end.pending),
        device,
    );
    assert(is_closed(router.frame_actions(device, events, routes)[at], device));
}

proof fn lemma_marked(frame: FrameView, device: usize, events: Seq<Event>, routes: Seq<Route>)
    ensures
        ({
            let fresh = FrameView { router: frame.router, pending: seq![], actions: seq![] };
            let base = FrameView { pending: seq![], ..frame };
            let one = base.steps(device, events, routes);
            let other = fresh.steps(device, events, routes);
            &&& one.router == other.router
            &&& one.pending == other.pending
            &&& one.actions == frame.actions + other.actions
        }),
    decreases events.len(),
{
    let fresh = FrameView { router: frame.router, pending: seq![], actions: seq![] };
    let base = FrameView { pending: seq![], ..frame };
    if events.len() == 0 {
        assert(frame.actions + Seq::<ActionView>::empty() =~= frame.actions);
    } else {
        lemma_marked(frame, device, events.drop_last(), routes);
        let one = base.steps(device, events, routes);
        let other = fresh.steps(device, events, routes);
        assert(one.actions =~= frame.actions + other.actions);
    }
}

/// An end mark parts a frame in two: what follows it is handled as a frame of its own.
pub proof fn marks_part_frames(
    router: RouterView,
    device: usize,
    first: Seq<Event>,
    second: Seq<Event>,
    routes: Seq<Route>,
)
    ensures
        ({
            let middle = router.after_frame(device, first, routes);
            let all = first.push(Event::Sync(SyncEvent::All)) + second;
            &&& router.frame_actions(device, all, routes) == router.frame_actions(
                device,
                first,
                routes,
            ) + middle.frame_actions(device, second, routes)
            &&& router.after_frame(device, all, routes) == middle.after_frame(
                device,
                second,
                routes,
            )
        }),
{
    let mark = Event::Sync(SyncEvent::All);
    let middle = router.after_frame(device, first, routes);
    let closed = first.push(mark);
    let start = frame_start(router, device);
    assert(closed.drop_last() =~= first);
    let ended = start.steps(device, closed, routes);
    lemma_device_known(start, device, first, routes);
    assert(middle.physical =~= middle.knowing(device).physical);
    assert(middle.knowing(device) == middle);
    lemma_steps_in_turn(start, device, closed, second, routes);
    lemma_marked(ended, device, second, routes);
    let rest = frame_start(middle, device).steps(device, second, routes);
    let all = closed + second;
    let whole = start.steps(device, all, routes);
    assert(FrameView { pending: seq![], ..ended } == ended);
    assert(whole.actions + crate::routing::flushed(device, whole.pending) =~= router.frame_actions(
        device,
        first,
        routes,
    ) + middle.frame_actions(device, second, routes));
}

proof fn lemma_steps_in_turn(
    frame: FrameView,
    device: usize,
    first: Seq<Event>,
    second: Seq<Event>,
    routes: Seq<Route>,
)
    ensures
        frame.steps(device, first + second, routes) == frame.steps(device, first, routes).steps(
            device,
            second,
            routes,
        ),
    decreases second.len(),
{
    if second.len() == 0 {
        assert(first + second =~= first);
    } else {
        let all = first + second;
        assert(all.drop_last() =~= first + second.drop_last());
        lemma_steps_in_turn(frame, device, first, second.drop_last(), routes);
    }
}

proof fn lemma_device_known(
    frame: FrameView,
    device: usize,
    events: Seq<Event>,
    routes: Seq<Route>,
)
    requires
        frame.router.physical.contains_key(device),
    ensures
        frame.steps(device, events, routes).router.physical.contains_key(device),
    decreases events.len(),
{
    if events.len() > 0 {
        lemma_device_known(frame, device, events.drop_last(), routes);
    }
}

/// The keys that a router takes for held follow the events: a key is down on a device from the
/// event that puts it down until the one that lets it go, and no event of one device touches the
/// keys of another. The chords never change.
pub proof fn held_keys_follow_the_events(
    router: RouterView,
    device: usize,
    events: Seq<Event>,
    event: Event,
    routes: Seq<Route>,
    other: usize,
    key: Key,
)
    ensures
        is_down(
            router.after_frame(device, Seq::<Event>::empty(), routes),
            other,
            key,
        ) == is_down(router, other, key),
        ({
            let before = router.after_frame(device, events, routes);
            let after = router.after_frame(device, events.push(event), routes);
            &&& is_down(after, other, key) == if other == device && event == Event::Key(
                KeyEvent { key, down: true },
            ) {
                true
            } else if other == device && event == Event::Key(KeyEvent { key, down: false }) {
                false
            } else {
                is_down(before, other, key)
            }
            &&& after.bindings == router.bindings
            &&& after.propagate == router.propagate
        }),
{
    assert(events.push(event).drop_last() =~= events);
    lemma_same_chords(frame_start(router, device), device, events.push(event), routes);
}

pub(crate) proof fn lemma_same_chords(
    frame: FrameView,
    device: usize,
    events: Seq<Event>,
    routes: Seq<Route>,
)
    ensures
        frame.steps(device, events, routes).router.bindings == frame.router.bindings,
        frame.steps(device, events, routes).router.propagate == frame.router.propagate,
    decreases events.len(),
{
    if events.len() > 0 {
        lemma_same_chords(frame, device, events.drop_last(), routes);
    }
}

/// The route moves on exactly when a trigger goes down while the other keys of its chord are down
/// on whatever devices, no chord is active and the trigger is not blocked. Of the routes, which
/// stand in ascending order, it is the next one above, or the local machine if there is none.
pub proof fn chords_move_the_route(
    router: RouterView,
    device: usize,
    events: Seq<Event>,
    event: Event,
    routes: Seq<Route>,
)
    requires
        crate::devices::ascending(routes),
    ensures
        router.after_frame(device, Seq::<Event>::empty(), routes).current == router.current,
        ({
            let before = router.after_frame(device, events, routes);
            let after = router.after_frame(device, events.push(event), routes);
            if switches(before, device, event) {
                ||| routes.contains(after.current) && after.current > before.current && forall|
                    route: Route,
                | #[trigger]
                    routes.contains(route) && route > before.current ==> after.current <= route
                ||| after.current == 0 && forall|route: Route| #[trigger]
                    routes.contains(route) ==> route <= before.current
            } else {
                after.current == before.current
            }
        }),
{
    let before = router.after_frame(device, events, routes);
    assert(events.push(event).drop_last() =~= events);
    if let Event::Key(KeyEvent { key, .. }) = event {
        lemma_chord(before, device, key);
    }
    lemma_next(routes, before.current);
}

proof fn lemma_next(routes: Seq<Route>, current: Route)
    requires
        crate::devices::ascending(routes),
    ensures
        ({
            let next = crate::routing::route_after(routes, current);
            ||| routes.contains(next) && next > current && forall|route: Route| #[trigger]
                routes.contains(route) && route > current ==> next <= route
            ||| next == 0 && forall|route: Route| #[trigger]
                routes.contains(route) ==> route <= current
        }),
    decreases routes.len(),
{
    let next = crate::routing::route_after(routes, current);
    if routes.len() > 0 {
        let rest = routes.drop_first();
        assert forall|left: int, right: int| 0 <= left < right < rest.len() implies rest[left]
            < rest[right] by {
            assert(routes[left + 1] < routes[right + 1]);
        }
        lemma_next(rest, current);
        assert(routes.contains(routes[0]));
        assert forall|route: Route| #[trigger] routes.contains(route) implies route == routes[0] || (
        rest.contains(route) && routes[0] < route) by {
            let at = choose|at: int| 0 <= at < routes.len() && routes[at] == route;
            if at > 0 {
                assert(rest[at - 1] == route);
            }
        }
        assert forall|route: Route| #[trigger] rest.contains(route) implies routes.contains(route) by {
            let at = choose|at: int| 0 <= at < rest.len() && rest[at] == route;
            assert(routes[at + 1] == route);
        }
    }
}

/// The chord that moved the route is active from then on, the first one that is whole. It stays so
/// until the event that leaves none of its keys down. Nothing else makes a chord active.
pub proof fn chords_are_active_until_released(
    router: RouterView,
    device: usize,
    events: Seq<Event>,
    event: Event,
    routes: Seq<Route>,
)
    ensures
        router.after_frame(device, Seq::<Event>::empty(), routes).active == router.active,
        ({
            let before = router.after_frame(device, events, routes);
            let after = router.after_frame(device, events.push(event), routes);
            if switches(before, device, event) {
                &&& after.active matches Some(at) && 0 <= at < before.bindings.len()
                    && event == Event::Key(
                    KeyEvent { key: before.bindings[at].trigger, down: true },
                ) && is_whole(before, at, before.bindings[at].trigger) && forall|other: int|
                    0 <= other < at ==> !((#[trigger] before.bindings[other]).trigger
                        == before.bindings[at].trigger && is_whole(
                        before,
                        other,
                        before.bindings[at].trigger,
                    ))
            } else if event is Key && before.active is Some && forall|key: Key| #[trigger]
                before.bindings[before.active->0].keys.contains(key) ==> !is_down_somewhere(
                    after,
                    key,
                ) {
                after.active is None
            } else {
                after.active == before.active
            }
        }),
{
    let before = router.after_frame(device, events, routes);
    let after = router.after_frame(device, events.push(event), routes);
    assert(events.push(event).drop_last() =~= events);
    if let Event::Key(KeyEvent { key, down }) = event {
        lemma_chord(before, device, key);
        let moved = before.with_key(device, key, down);
        assert forall|other: Key| #[trigger] moved.pressed().contains(other)
            <==> is_down_somewhere(moved, other) by {
            if is_down_somewhere(moved, other) {
                let from = choose|from: usize| #[trigger] is_down(moved, from, other);
                assert(moved.physical.contains_key(from));
            }
            if moved.pressed().contains(other) {
                let from = choose|from: usize| #[trigger]
                    moved.physical.contains_key(from) && moved.physical[from].contains(other);
                assert(is_down(moved, from, other));
            }
        }
        assert forall|other: Key| #[trigger] is_down_somewhere(after, other) <==> is_down_somewhere(
            moved,
            other,
        ) by {
            if is_down_somewhere(moved, other) {
                let from = choose|from: usize| #[trigger] is_down(moved, from, other);
                assert(is_down(after, from, other));
            }
            if is_down_somewhere(after, other) {
                let from = choose|from: usize| #[trigger] is_down(after, from, other);
                assert(is_down(moved, from, other));
            }
        }
        assert(moved.without_block(device, key).pressed() =~= moved.pressed());
        if let Some(at) = before.active {
            let keys = before.bindings[at].keys;
            if keys.disjoint(moved.pressed()) {
                assert forall|other: Key| #[trigger] keys.contains(other) implies !is_down_somewhere(
                    after,
                    other,
                ) by {
                    assert(!moved.pressed().contains(other));
                }
            } else {
                let other = choose|other: Key| keys.contains(other) && moved.pressed().contains(
                    other,
                );
                assert(keys.contains(other));
                assert(is_down_somewhere(after, other));
            }
        }
    }
}

/// A switch blocks of every device all keys that are down, but for the modifiers that are carried
/// over: no trigger of the chord, and no key of a chord where those are consumed. Otherwise a block
/// ends with the event that lets its key go, and nothing else changes a block.
pub proof fn blocks_follow_the_events(
    router: RouterView,
    device: usize,
    events: Seq<Event>,
    event: Event,
    routes: Seq<Route>,
    other: usize,
    key: Key,
)
    ensures
        is_hidden(
            router.after_frame(device, Seq::<Event>::empty(), routes),
            other,
            key,
        ) == is_hidden(router, other, key),
        ({
            let before = router.after_frame(device, events, routes);
            let after = router.after_frame(device, events.push(event), routes);
            is_hidden(after, other, key) == if switches(before, device, event) {
                is_down(after, other, key) && !(key.modifies() && event != Event::Key(
                    KeyEvent { key, down: true },
                ) && (before.propagate || !is_chord_key(before, key)))
            } else {
                is_hidden(before, other, key) && !(other == device && event == Event::Key(
                    KeyEvent { key, down: false },
                ))
            }
        }),
{
    let before = router.after_frame(device, events, routes);
    let after = router.after_frame(device, events.push(event), routes);
    assert(events.push(event).drop_last() =~= events);
    if let Event::Key(KeyEvent { key: moving, down }) = event {
        lemma_chord(before, device, moving);
        let moved = before.with_key(device, moving, down);
        if switches(before, device, event) {
            let trigger = Some(moving);
            assert(moved.switch_keys().contains(key) == is_chord_key(before, key));
            if moved.suppressed(other, trigger).contains(key) {
                assert(moved.suppressed(other, trigger) != Set::<Key>::empty());
            }
            assert(moved.held(other).contains(key) == is_down(moved, other, key));
        }
    }
}

/// Adding a device sets its keys on every output: on the current route all that are down but the
/// triggers, which are blocked until they are let go, and on the others none. The rest of the
/// router stays as it is.
pub proof fn new_devices_are_shown(
    router: RouterView,
    device: usize,
    pressed: Set<Key>,
    routes: Seq<Route>,
    at: int,
    other: usize,
    key: Key,
)
    ensures
        ({
            let after = router.with_device(device, pressed);
            let actions = after.device_reconciled(device, routes, ReconcileMode::Recovery);
            &&& actions.len() == routes.len()
            &&& 0 <= at < routes.len() ==> (actions[at] matches ActionView::SetKeyState {
                route,
                device_id,
                pressed_keys,
            } && route == routes[at] && device_id == device && pressed_keys.contains(key) == (
            routes[at] == router.current && pressed.contains(key) && !is_trigger(router, key)))
            &&& is_down(after, other, key) == if other == device {
                pressed.contains(key)
            } else {
                is_down(router, other, key)
            }
            &&& is_hidden(after, other, key) == if other == device {
                pressed.contains(key) && is_trigger(router, key)
            } else {
                is_hidden(router, other, key)
            }
            &&& after.current == router.current
            &&& after.active == router.active
            &&& after.bindings == router.bindings
            &&& after.propagate == router.propagate
        }),
{
    let after = router.with_device(device, pressed);
    let blocked = pressed.intersect(router.trigger_keys());
    assert(router.trigger_keys().contains(key) == is_trigger(router, key));
    assert(blocked.contains(key) == (pressed.contains(key) && is_trigger(router, key)));
}

/// Whether all keys of a chord are down.
pub open spec fn is_all_down(router: RouterView, at: int) -> bool {
    forall|key: Key| #[trigger]
        router.bindings[at].keys.contains(key) ==> is_down_somewhere(router, key)
}

/// Taking over the keys of a device anew does what adding it does, but that the first chord whose
/// keys are all down counts as active, or none.
pub proof fn reset_devices_are_shown(
    router: RouterView,
    device: usize,
    pressed: Set<Key>,
    routes: Seq<Route>,
    at: int,
)
    requires
        0 <= at < router.bindings.len(),
    ensures
        ({
            let after = router.with_device_reset(device, pressed);
            let added = router.with_device(device, pressed);
            &&& after.device_reconciled(device, routes, ReconcileMode::Recovery)
                == added.device_reconciled(device, routes, ReconcileMode::Recovery)
            &&& after.physical == added.physical
            &&& after.blocked == added.blocked
            &&& after.current == router.current
            &&& after.bindings == router.bindings
            &&& after.propagate == router.propagate
            &&& (after.active == Some(at)) == (is_all_down(after, at) && forall|earlier: int|
                0 <= earlier < at ==> !#[trigger] is_all_down(after, earlier))
            &&& is_all_down(after, at) ==> after.active is Some
        }),
{
    let after = router.with_device_reset(device, pressed);
    let added = router.with_device(device, pressed);
    assert(after.device_reconciled(device, routes, ReconcileMode::Recovery)
        =~= added.device_reconciled(device, routes, ReconcileMode::Recovery)) by {
        assert(after.desired(device, ReconcileMode::Recovery) =~= added.desired(
            device,
            ReconcileMode::Recovery,
        ));
    }
    assert forall|other: int| #[trigger] is_all_down(after, other)
        <==> added.bindings[other].keys.subset_of(added.pressed()) by {
        lemma_all_down(added, after, other);
    }
    if exists|first: int| added.held_first(first) {
        let first = added.held_chord().unwrap();
        assert(added.held_first(first));
        assert(is_all_down(after, first));
        if is_all_down(after, at) && at < first {
            assert(!added.bindings[at].keys.subset_of(added.pressed()));
        }
    }
    if is_all_down(after, at) {
        let first = lemma_first_down(added, at);
        assert(added.held_first(first));
        if first < at {
            assert(is_all_down(after, first));
        }
    }
}

proof fn lemma_all_down(added: RouterView, after: RouterView, at: int)
    requires
        after.physical == added.physical,
        after.bindings == added.bindings,
    ensures
        is_all_down(after, at) <==> added.bindings[at].keys.subset_of(added.pressed()),
{
    assert forall|key: Key| #[trigger] added.pressed().contains(key) <==> is_down_somewhere(
        after,
        key,
    ) by {
        if is_down_somewhere(after, key) {
            let from = choose|from: usize| #[trigger] is_down(after, from, key);
            assert(added.physical.contains_key(from));
        }
        if added.pressed().contains(key) {
            let from = choose|from: usize| #[trigger]
                added.physical.contains_key(from) && added.physical[from].contains(key);
            assert(is_down(after, from, key));
        }
    }
    if is_all_down(after, at) {
        assert forall|key: Key| added.bindings[at].keys.contains(
            key,
        ) implies added.pressed().contains(key) by {
            assert(after.bindings[at].keys.contains(key));
        }
    }
}

proof fn lemma_first_down(router: RouterView, at: int) -> (first: int)
    requires
        0 <= at < router.bindings.len(),
        router.bindings[at].keys.subset_of(router.pressed()),
    ensures
        first <= at,
        router.held_first(first),
    decreases at,
{
    if exists|other: int|
        0 <= other < at && (#[trigger] router.bindings[other]).keys.subset_of(router.pressed()) {
        let other = choose|other: int|
            0 <= other < at && (#[trigger] router.bindings[other]).keys.subset_of(router.pressed());
        lemma_first_down(router, other)
    } else {
        at
    }
}

/// Forgetting a device leaves none of its keys down or blocked. The keys and blocks of the others,
/// the route and the chords stay. A chord of which no key is down any more is not active.
pub proof fn forgotten_devices_hold_nothing(
    router: RouterView,
    device: usize,
    other: usize,
    key: Key,
)
    ensures
        ({
            let after = router.without_device(device);
            &&& is_down(after, other, key) == (other != device && is_down(router, other, key))
            &&& is_hidden(after, other, key) == (other != device && is_hidden(router, other, key))
            &&& !after.physical.contains_key(device)
            &&& after.current == router.current
            &&& after.bindings == router.bindings
            &&& after.propagate == router.propagate
            &&& after.active == router.active || after.active is None
            &&& router.active matches Some(at) ==> ((after.active is None) == forall|held: Key|
                #[trigger]
                router.bindings[at].keys.contains(held) ==> !is_down_somewhere(after, held))
        }),
{
    let after = router.without_device(device);
    if let Some(at) = router.active {
        let keys = router.bindings[at].keys;
        let removed = RouterView {
            physical: router.physical.remove(device),
            blocked: router.blocked.remove(device),
            ..router
        };
        assert forall|held: Key| #[trigger] removed.pressed().contains(held) <==> is_down_somewhere(
            after,
            held,
        ) by {
            if is_down_somewhere(after, held) {
                let from = choose|from: usize| #[trigger] is_down(after, from, held);
                assert(removed.physical.contains_key(from));
            }
            if removed.pressed().contains(held) {
                let from = choose|from: usize| #[trigger]
                    removed.physical.contains_key(from) && removed.physical[from].contains(held);
                assert(is_down(after, from, held));
            }
        }
        if !keys.disjoint(removed.pressed()) {
            let held = choose|held: Key| keys.contains(held) && removed.pressed().contains(held);
            assert(keys.contains(held));
        } else {
            assert forall|held: Key| #[trigger] keys.contains(held) implies !is_down_somewhere(
                after,
                held,
            ) by {
                assert(!removed.pressed().contains(held));
            }
        }
    }
}

/// When the current route is lost, the local machine takes over. Of every device all keys that are
/// down are blocked, but for the modifiers that are carried over.
pub proof fn the_local_machine_takes_over(router: RouterView, device: usize, key: Key)
    ensures
        ({
            let after = router.rehomed();
            &&& after.current == 0
            &&& after.active == router.active
            &&& after.bindings == router.bindings
            &&& after.propagate == router.propagate
            &&& is_down(after, device, key) == is_down(router, device, key)
            &&& is_hidden(after, device, key) == (is_down(router, device, key) && !(key.modifies()
                && !triggers_active(router, key) && (router.propagate || !is_chord_key(
                router,
                key,
            ))))
        }),
{
    let trigger = router.active_trigger();
    assert(router.switch_keys().contains(key) == is_chord_key(router, key));
    assert(router.held(device).contains(key) == is_down(router, device, key));
    if router.suppressed(device, trigger).contains(key) {
        assert(router.suppressed(device, trigger) != Set::<Key>::empty());
    }
}

/// The modifiers are the keys Ctrl, Shift, Alt and Meta of either side, by their codes.
pub proof fn modifiers_are_known_by_code(key: Key)
    ensures
        key.modifies() <==> (key.code() == 29 || key.code() == 97 || key.code() == 42 || key.code()
            == 54 || key.code() == 56 || key.code() == 100 || key.code() == 125 || key.code()
            == 126),
{
    assert(Key::Key(Keyboard::LeftCtrl).code() == 29) by {
        reveal(Keyboard::code);
    }
    crate::key::key_codes_are_distinct(key, Key::Key(Keyboard::LeftCtrl));
    assert(Key::Key(Keyboard::RightCtrl).code() == 97) by {
        reveal(Keyboard::code);
    }
    crate::key::key_codes_are_distinct(key, Key::Key(Keyboard::RightCtrl));
    assert(Key::Key(Keyboard::LeftShift).code() == 42) by {
        reveal(Keyboard::code);
    }
    crate::key::key_codes_are_distinct(key, Key::Key(Keyboard::LeftShift));
    assert(Key::Key(Keyboard::RightShift).code() == 54) by {
        reveal(Keyboard::code);
    }
    crate::key::key_codes_are_distinct(key, Key::Key(Keyboard::RightShift));
    assert(Key::Key(Keyboard::LeftAlt).code() == 56) by {
        reveal(Keyboard::code);
    }
    crate::key::key_codes_are_distinct(key, Key::Key(Keyboard::LeftAlt));
    assert(Key::Key(Keyboard::RightAlt).code() == 100) by {
        reveal(Keyboard::code);
    }
    crate::key::key_codes_are_distinct(key, Key::Key(Keyboard::RightAlt));
    assert(Key::Key(Keyboard::LeftMeta).code() == 125) by {
        reveal(Keyboard::code);
    }
    crate::key::key_codes_are_distinct(key, Key::Key(Keyboard::LeftMeta));
    assert(Key::Key(Keyboard::RightMeta).code() == 126) by {
        reveal(Keyboard::code);
    }
    crate::key::key_codes_are_distinct(key, Key::Key(Keyboard::RightMeta));
}

/// An output that is brought up to date sees the keys that are down and not hidden: all of them
/// after a recovery, and the modifiers among them after a handoff.
pub proof fn handoffs_show_modifiers(router: RouterView, device: usize, key: Key)
    ensures
        router.desired(device, ReconcileMode::Handoff).contains(key) <==> is_down(
            router,
            device,
            key,
        ) && !is_hidden(router, device, key) && key.modifies(),
        router.desired(device, ReconcileMode::Recovery).contains(key) <==> is_down(
            router,
            device,
            key,
        ) && !is_hidden(router, device, key),
{
}

} // verus!
