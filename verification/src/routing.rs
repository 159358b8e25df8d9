//! Decides which output receives the input: the local machine or one of the clients.
//!
//! Outputs are numbered. Route 0 is the local machine, route `n + 1` is client `n`. A switch
//! binding (a chord with a trigger key) hands the input over to the next route.

use std::collections::BTreeMap;
use vstd::prelude::*;

use crate::devices::DeviceKeys;
use crate::event::{Event, SyncEvent};
use crate::key::{Key, KeyEvent};
use crate::keyset::KeySet;

verus! {

broadcast use {vstd::std_specs::btree::group_btree_axioms, vstd::laws_cmp::group_laws_cmp};

pub type Route = usize;

/// A chord that switches to the next route when its trigger goes down while all its keys are held.
#[derive(Debug)]
pub struct SwitchBinding {
    pub keys: KeySet,
    pub trigger: Key,
}

/// What a [`SwitchBinding`] is made of.
#[verifier::ext_equal]
pub struct Chord {
    pub keys: Set<Key>,
    pub trigger: Key,
}

impl View for SwitchBinding {
    type V = Chord;

    open spec fn view(&self) -> Chord {
        Chord { keys: self.keys@, trigger: self.trigger }
    }
}

impl SwitchBinding {
    pub fn new(keys: KeySet, trigger: Key) -> (binding: SwitchBinding)
        ensures
            binding@ == (Chord { keys: keys@, trigger }),
    {
        SwitchBinding { keys, trigger }
    }
}

impl Clone for SwitchBinding {
    fn clone(&self) -> (copy: SwitchBinding)
        ensures
            copy@ == self@,
    {
        SwitchBinding { keys: self.keys.clone(), trigger: self.trigger }
    }
}

/// What is to be done on an output.
#[derive(Debug)]
pub enum Action {
    /// Replay the events of a device.
    Events { route: Route, device_id: usize, events: Vec<Event> },
    /// Bring the keys of a device to exactly this state.
    SetKeyState { route: Route, device_id: usize, pressed_keys: KeySet },
}

/// What an [`Action`] is made of.
#[verifier::ext_equal]
pub enum ActionView {
    Events { route: Route, device_id: usize, events: Seq<Event> },
    SetKeyState { route: Route, device_id: usize, pressed_keys: Set<Key> },
}

impl View for Action {
    type V = ActionView;

    open spec fn view(&self) -> ActionView {
        match self {
            Action::Events { route, device_id, events } => ActionView::Events {
                route: *route,
                device_id: *device_id,
                events: events@,
            },
            Action::SetKeyState { route, device_id, pressed_keys } => ActionView::SetKeyState {
                route: *route,
                device_id: *device_id,
                pressed_keys: pressed_keys@,
            },
        }
    }
}

/// The views of a list of actions.
pub open spec fn action_views(actions: Seq<Action>) -> Seq<ActionView> {
    actions.map_values(|action: Action| action@)
}

/// Whether the keys of a device are brought back in full, or only its modifiers.
#[derive(Clone, Copy, Debug, PartialEq, Eq, Structural)]
pub enum ReconcileMode {
    Handoff,
    Recovery,
}

/// The state of a [`Router`].
#[verifier::ext_equal]
pub struct RouterView {
    /// The configured chords, in order of precedence.
    pub bindings: Seq<Chord>,
    /// Whether the keys of a chord reach the output on which they are pressed.
    pub propagate: bool,
    /// The route that receives the input.
    pub current: Route,
    /// The chord of the last handoff, as long as one of its keys is held.
    pub active: Option<int>,
    /// The keys that are physically held on each device.
    pub physical: Map<usize, Set<Key>>,
    /// The held keys of each device that no output may see.
    pub blocked: Map<usize, Set<Key>>,
}

/// The first route of the list above the current one, or else the local machine.
pub open spec fn route_after(routes: Seq<Route>, current: Route) -> Route
    decreases routes.len(),
{
    if routes.len() == 0 {
        0
    } else if routes[0] > current {
        routes[0]
    } else {
        route_after(routes.drop_first(), current)
    }
}

/// The number of events at the start of the queue that go to the route of the first one.
pub open spec fn run_length(pending: Seq<(Route, Event)>) -> nat
    decreases pending.len(),
{
    if pending.len() == 0 {
        0
    } else if pending.len() > 1 && pending[1].0 == pending[0].0 {
        1 + run_length(pending.drop_first())
    } else {
        1
    }
}

/// The events of a queue without their routes.
pub open spec fn events_of(pending: Seq<(Route, Event)>) -> Seq<Event> {
    pending.map_values(|entry: (Route, Event)| entry.1)
}

/// A queue of routed events as actions: one frame, with its end mark, for each run of events to
/// one route.
pub open spec fn flushed(device_id: usize, pending: Seq<(Route, Event)>) -> Seq<ActionView>
    decreases pending.len(),
{
    if pending.len() == 0 {
        seq![]
    } else {
        proof {
            lemma_run_length(pending);
        }
        let run = run_length(pending) as int;
        seq![
            ActionView::Events {
                route: pending[0].0,
                device_id,
                events: events_of(pending.take(run)).push(Event::Sync(SyncEvent::All)),
            },
        ] + flushed(device_id, pending.skip(run))
    }
}

pub proof fn lemma_run_length(pending: Seq<(Route, Event)>)
    ensures
        run_length(pending) <= pending.len(),
        pending.len() > 0 ==> run_length(pending) > 0,
        forall|at: int| 0 <= at < run_length(pending) ==> (#[trigger] pending[at]).0 == pending[0].0,
        run_length(pending) < pending.len() ==> pending[run_length(pending) as int].0
            != pending[0].0,
    decreases pending.len(),
{
    if pending.len() > 0 {
        let rest = pending.drop_first();
        lemma_run_length(rest);
        if pending.len() > 1 && pending[1].0 == pending[0].0 {
            assert forall|at: int| 0 <= at < run_length(pending) implies (#[trigger] pending[at]).0
                == pending[0].0 by {
                if at > 0 {
                    assert(pending[at] == rest[at - 1]);
                }
            }
        }
    }
}

impl RouterView {
    /// What holds of the state of every router.
    pub open spec fn valid(self) -> bool {
        &&& self.active matches Some(at) ==> 0 <= at < self.bindings.len()
        &&& self.physical.dom().finite()
    }

    /// Every key of every chord.
    pub open spec fn switch_keys(self) -> Set<Key> {
        Set::new(
            |key: Key|
                exists|at: int|
                    0 <= at < self.bindings.len() && (#[trigger] self.bindings[at]).keys.contains(
                        key,
                    ),
        )
    }

    /// The trigger of every chord.
    pub open spec fn trigger_keys(self) -> Set<Key> {
        Set::new(
            |key: Key|
                exists|at: int|
                    0 <= at < self.bindings.len() && (#[trigger] self.bindings[at]).trigger == key,
        )
    }

    /// The keys that are held on any device.
    pub open spec fn pressed(self) -> Set<Key> {
        Set::new(
            |key: Key|
                exists|device: usize| #[trigger]
                    self.physical.contains_key(device) && self.physical[device].contains(key),
        )
    }

    /// Whether a chord has this trigger and all its keys are held.
    pub open spec fn completes(self, at: int, trigger: Key) -> bool {
        self.bindings[at].trigger == trigger && self.bindings[at].keys.subset_of(self.pressed())
    }

    /// Whether a chord is the first one that a trigger completes.
    pub open spec fn completes_first(self, at: int, trigger: Key) -> bool {
        &&& 0 <= at < self.bindings.len()
        &&& self.completes(at, trigger)
        &&& forall|other: int| 0 <= other < at ==> !#[trigger] self.completes(other, trigger)
    }

    /// The first chord that a trigger completes.
    pub open spec fn completed(self, trigger: Key) -> Option<int> {
        if exists|at: int| self.completes_first(at, trigger) {
            Some(choose|at: int| self.completes_first(at, trigger))
        } else {
            None
        }
    }

    /// Whether a chord is the first one of which all keys are held.
    pub open spec fn held_first(self, at: int) -> bool {
        &&& 0 <= at < self.bindings.len()
        &&& self.bindings[at].keys.subset_of(self.pressed())
        &&& forall|other: int|
            0 <= other < at ==> !(#[trigger] self.bindings[other]).keys.subset_of(self.pressed())
    }

    /// The first chord of which all keys are held.
    pub open spec fn held_chord(self) -> Option<int> {
        if exists|at: int| self.held_first(at) {
            Some(choose|at: int| self.held_first(at))
        } else {
            None
        }
    }

    /// The state after the last key of the active chord was let go: no chord is active.
    pub open spec fn settled(self) -> RouterView {
        match self.active {
            Some(at) if self.bindings[at].keys.disjoint(self.pressed()) => RouterView {
                active: None,
                ..self
            },
            _ => self,
        }
    }

    /// Whether a held key of a device is kept from every output.
    pub open spec fn is_blocked(self, device: usize, key: Key) -> bool {
        self.blocked.contains_key(device) && self.blocked[device].contains(key)
    }

    /// Whether a key is the trigger of the active chord.
    pub open spec fn is_active_trigger(self, key: Key) -> bool {
        self.active matches Some(at) && self.bindings[at].trigger == key
    }

    /// The keys that are held on a device.
    pub open spec fn held(self, device: usize) -> Set<Key> {
        if self.physical.contains_key(device) {
            self.physical[device]
        } else {
            Set::empty()
        }
    }

    /// The state in which a device is known, with no key held if it was not.
    pub open spec fn knowing(self, device: usize) -> RouterView {
        RouterView { physical: self.physical.insert(device, self.held(device)), ..self }
    }

    /// The state after a key of a device went down or up.
    pub open spec fn with_key(self, device: usize, key: Key, down: bool) -> RouterView {
        let keys = if down {
            self.held(device).insert(key)
        } else {
            self.held(device).remove(key)
        };
        RouterView { physical: self.physical.insert(device, keys), ..self }
    }

    /// The state in which a key of a device is no longer blocked.
    pub open spec fn without_block(self, device: usize, key: Key) -> RouterView {
        if !self.blocked.contains_key(device) {
            self
        } else {
            let keys = self.blocked[device].remove(key);
            RouterView {
                blocked: if keys == Set::<Key>::empty() {
                    self.blocked.remove(device)
                } else {
                    self.blocked.insert(device, keys)
                },
                ..self
            }
        }
    }

    /// The held keys of a device that must not reach the output of a handoff: all but the
    /// modifiers, the trigger, and, where chords are consumed, every key of a chord.
    pub open spec fn suppressed(self, device: usize, trigger: Option<Key>) -> Set<Key> {
        self.held(device).filter(
            |key: Key|
                !key.modifies() || trigger == Some(key) || (!self.propagate
                    && self.switch_keys().contains(key)),
        )
    }

    /// The blocked keys of each device after a handoff.
    pub open spec fn blocked_by_handoff(self, trigger: Option<Key>) -> Map<usize, Set<Key>> {
        Map::new(
            |device: usize|
                self.physical.contains_key(device) && self.suppressed(device, trigger) != Set::<
                    Key,
                >::empty(),
            |device: usize| self.suppressed(device, trigger),
        )
    }

    /// The keys that the active output should see on a device.
    pub open spec fn desired(self, device: usize, mode: ReconcileMode) -> Set<Key> {
        self.held(device).filter(
            |key: Key|
                (mode == ReconcileMode::Recovery || key.modifies()) && !self.is_blocked(
                    device,
                    key,
                ),
        )
    }

    /// The actions that let go of every key of every known device on one route.
    pub open spec fn releases(self, route: Route) -> Seq<ActionView> {
        let ids = crate::devices::in_order(self.physical.dom());
        ids.map_values(
            |device: usize|
                ActionView::SetKeyState {
                    route,
                    device_id: device,
                    pressed_keys: Set::empty(),
                },
        )
    }

    /// The actions that let go of every key on every route of the list but the current one.
    pub open spec fn inactive_releases(self, routes: Seq<Route>) -> Seq<ActionView>
        decreases routes.len(),
    {
        if routes.len() == 0 {
            seq![]
        } else {
            let before = self.inactive_releases(routes.drop_last());
            if routes.last() != self.current {
                before + self.releases(routes.last())
            } else {
                before
            }
        }
    }

    /// The actions that bring the keys of every known device up to date on the current route.
    pub open spec fn active_states(self, mode: ReconcileMode) -> Seq<ActionView> {
        let ids = crate::devices::in_order(self.physical.dom());
        ids.map_values(
            |device: usize|
                ActionView::SetKeyState {
                    route: self.current,
                    device_id: device,
                    pressed_keys: self.desired(device, mode),
                },
        )
    }

    /// The actions that bring every output up to date.
    pub open spec fn reconciled(self, routes: Seq<Route>, mode: ReconcileMode) -> Seq<ActionView> {
        self.inactive_releases(routes) + if routes.contains(self.current) {
            self.active_states(mode)
        } else {
            seq![]
        }
    }

    /// The actions that bring the keys of one device up to date on every output.
    pub open spec fn device_reconciled(
        self,
        device: usize,
        routes: Seq<Route>,
        mode: ReconcileMode,
    ) -> Seq<ActionView> {
        routes.map_values(
            |route: Route|
                ActionView::SetKeyState {
                    route,
                    device_id: device,
                    pressed_keys: if route == self.current {
                        self.desired(device, mode)
                    } else {
                        Set::empty()
                    },
                },
        )
    }

    /// The state after a chord handed the input over to the next route.
    pub open spec fn handed_over(self, at: int, routes: Seq<Route>) -> RouterView {
        RouterView {
            current: route_after(routes, self.current),
            active: Some(at),
            blocked: self.blocked_by_handoff(Some(self.bindings[at].trigger)),
            ..self
        }
    }

    /// The trigger of the active chord.
    pub open spec fn active_trigger(self) -> Option<Key> {
        match self.active {
            Some(at) => Some(self.bindings[at].trigger),
            None => None,
        }
    }

    /// The state after the current route was lost: the local machine takes over.
    pub open spec fn rehomed(self) -> RouterView {
        RouterView {
            current: 0,
            blocked: self.blocked_by_handoff(self.active_trigger()),
            ..self
        }
    }

    /// The state after a device was added with some of its keys held.
    pub open spec fn with_device(self, device: usize, pressed: Set<Key>) -> RouterView {
        let blocked = pressed.intersect(self.trigger_keys());
        RouterView {
            physical: self.physical.insert(device, pressed),
            blocked: if blocked == Set::<Key>::empty() {
                self.blocked.remove(device)
            } else {
                self.blocked.insert(device, blocked)
            },
            ..self
        }
    }

    /// The state after the keys of a device were read anew: the first chord of which all keys are
    /// held counts as active.
    pub open spec fn with_device_reset(self, device: usize, pressed: Set<Key>) -> RouterView {
        let added = self.with_device(device, pressed);
        RouterView { active: added.held_chord(), ..added }
    }

    /// The state after a device was removed.
    pub open spec fn without_device(self, device: usize) -> RouterView {
        RouterView {
            physical: self.physical.remove(device),
            blocked: self.blocked.remove(device),
            ..self
        }.settled()
    }
}

/// The state in the middle of a frame.
#[verifier::ext_equal]
pub struct FrameView {
    pub router: RouterView,
    /// Events that wait for the end of the frame, each with its route.
    pub pending: Seq<(Route, Event)>,
    pub actions: Seq<ActionView>,
}

impl FrameView {
    /// What one event of a device does.
    pub open spec fn step(self, device: usize, event: Event, routes: Seq<Route>) -> FrameView {
        let router = self.router;
        match event {
            Event::Sync(SyncEvent::All) => FrameView {
                pending: seq![],
                actions: self.actions + flushed(device, self.pending),
                ..self
            },
            Event::Key(KeyEvent { key, down }) => {
                let moved = router.with_key(device, key, down);
                if router.is_blocked(device, key) {
                    let after = if down {
                        moved
                    } else {
                        moved.without_block(device, key)
                    };
                    FrameView { router: after.settled(), ..self }
                } else if router.is_active_trigger(key) {
                    FrameView { router: moved.settled(), ..self }
                } else if down && router.active is None && moved.completed(key) is Some {
                    let pending = if router.propagate {
                        self.pending.push((router.current, event))
                    } else {
                        self.pending
                    };
                    let after = moved.handed_over(moved.completed(key).unwrap(), routes);
                    FrameView {
                        router: after,
                        pending: seq![],
                        actions: self.actions + flushed(device, pending) + after.reconciled(
                            routes,
                            ReconcileMode::Handoff,
                        ),
                    }
                } else if !router.propagate && router.switch_keys().contains(key) {
                    FrameView { router: moved.settled(), ..self }
                } else {
                    FrameView {
                        router: moved.settled(),
                        pending: self.pending.push((router.current, event)),
                        ..self
                    }
                }
            },
            _ => FrameView { pending: self.pending.push((router.current, event)), ..self },
        }
    }

    /// What the events of a device do, one after the other.
    pub open spec fn steps(
        self,
        device: usize,
        events: Seq<Event>,
        routes: Seq<Route>,
    ) -> FrameView
        decreases events.len(),
    {
        if events.len() == 0 {
            self
        } else {
            self.steps(device, events.drop_last(), routes).step(device, events.last(), routes)
        }
    }
}

impl RouterView {
    /// The state in the middle of a frame, at its end, with all events still in the queue.
    pub open spec fn framed(
        self,
        device: usize,
        events: Seq<Event>,
        routes: Seq<Route>,
    ) -> FrameView {
        FrameView { router: self.knowing(device), pending: seq![], actions: seq![] }.steps(
            device,
            events,
            routes,
        )
    }

    /// The state after a frame of a device.
    pub open spec fn after_frame(
        self,
        device: usize,
        events: Seq<Event>,
        routes: Seq<Route>,
    ) -> RouterView {
        self.framed(device, events, routes).router
    }

    /// The actions of a frame of a device.
    pub open spec fn frame_actions(
        self,
        device: usize,
        events: Seq<Event>,
        routes: Seq<Route>,
    ) -> Seq<ActionView> {
        let end = self.framed(device, events, routes);
        end.actions + flushed(device, end.pending)
    }
}

/// The indices of the chords with each trigger, keyed by the trigger's code.
pub open spec fn indexes(
    table: Map<u16, Vec<usize>>,
    bindings: Seq<SwitchBinding>,
    count: int,
) -> bool {
    &&& forall|at: int|
        0 <= at < count ==> #[trigger] table.contains_key(bindings[at].trigger.code())
    &&& forall|at: int|
        0 <= at < count ==> table[(#[trigger] bindings[at]).trigger.code()]@.contains(at as usize)
    &&& forall|code: u16| #[trigger]
        table.contains_key(code) ==> crate::devices::ascending(table[code]@)
    &&& forall|code: u16, to: int|
        table.contains_key(code) && 0 <= to < table[code]@.len() ==> (#[trigger] table[code]@[to])
            < count && bindings[table[code]@[to] as int].trigger.code() == code
}

/// The chords of a list of bindings.
pub open spec fn chords(bindings: Seq<SwitchBinding>) -> Seq<Chord> {
    bindings.map_values(|binding: SwitchBinding| binding@)
}

/// Routes the frames of the input devices, and keeps the keys of all outputs consistent.
pub struct Router {
    current: Route,
    bindings: Vec<SwitchBinding>,
    trigger_bindings: BTreeMap<u16, Vec<usize>>,
    switch_keys: KeySet,
    trigger_keys: KeySet,
    propagate_switch_keys: bool,
    active_binding: Option<usize>,
    physical_keys: DeviceKeys,
    blocked_keys: DeviceKeys,
}

impl View for Router {
    type V = RouterView;

    closed spec fn view(&self) -> RouterView {
        RouterView {
            bindings: chords(self.bindings@),
            propagate: self.propagate_switch_keys,
            current: self.current,
            active: match self.active_binding {
                Some(at) => Some(at as int),
                None => None,
            },
            physical: self.physical_keys@,
            blocked: self.blocked_keys@,
        }
    }
}

/// The position of a device in a list.
proof fn lemma_listed(ids: Seq<usize>, devices: Set<usize>, id: usize) -> (at: int)
    requires
        ids.to_set() == devices,
        devices.contains(id),
    ensures
        0 <= at < ids.len(),
        ids[at] == id,
{
    assert(ids.to_set().contains(id));
    choose|at: int| 0 <= at < ids.len() && ids[at] == id
}

impl Router {
    /// What holds of every router.
    pub closed spec fn wf(&self) -> bool {
        &&& self.active_binding matches Some(at) ==> at < self.bindings@.len()
        &&& self.switch_keys@ == self@.switch_keys()
        &&& self.trigger_keys@ == self@.trigger_keys()
        &&& indexes(self.trigger_bindings@, self.bindings@, self.bindings@.len() as int)
    }

    /// A router with no devices that routes to the local machine.
    pub fn new(bindings: &[SwitchBinding], propagate_switch_keys: bool) -> (router: Router)
        ensures
            router.wf(),
            router@ == (RouterView {
                bindings: chords(bindings@),
                propagate: propagate_switch_keys,
                current: 0,
                active: None,
                physical: Map::empty(),
                blocked: Map::empty(),
            }),
    {
        let mut copies: Vec<SwitchBinding> = Vec::new();
        let mut trigger_bindings: BTreeMap<u16, Vec<usize>> = BTreeMap::new();
        let mut switch_keys = KeySet::new();
        let mut trigger_keys = KeySet::new();
        let mut index: usize = 0;
        while index < bindings.len()
            invariant
                index <= bindings@.len(),
                copies@.len() == index,
                forall|at: int| 0 <= at < index ==> (#[trigger] copies@[at])@ == bindings@[at]@,
                indexes(trigger_bindings@, copies@, index as int),
                forall|key: Key| #[trigger]
                    switch_keys@.contains(key) <==> exists|at: int|
                        0 <= at < index && (#[trigger] copies@[at])@.keys.contains(key),
                forall|key: Key| #[trigger]
                    trigger_keys@.contains(key) <==> exists|at: int|
                        0 <= at < index && (#[trigger] copies@[at])@.trigger == key,
            decreases bindings@.len() - index,
        {
            let ghost copies_before = copies@;
            let ghost table_before = trigger_bindings@;
            let ghost switch_before = switch_keys@;
            let ghost triggers_before = trigger_keys@;
            let binding = &bindings[index];
            let copy = binding.clone();
            let code: u16 = copy.trigger.to_raw().unwrap();
            let mut indices = match trigger_bindings.remove(&code) {
                Some(indices) => indices,
                None => Vec::new(),
            };
            let ghost indices_before = indices@;
            indices.push(index);
            proof {
                assert(indices@.last() == index);
            }
            trigger_bindings.insert(code, indices);
            switch_keys.extend(&copy.keys);
            trigger_keys.insert(copy.trigger);
            copies.push(copy);
            proof {
                assert forall|at: int| 0 <= at < index + 1 implies trigger_bindings@[(
                #[trigger] copies@[at]).trigger.code()]@.contains(at as usize) by {
                    if at < index {
                        assert(copies@[at] == copies_before[at]);
                        let list = table_before[copies_before[at].trigger.code()]@;
                        assert(list.contains(at as usize));
                        if copies@[at].trigger.code() == code {
                            let to = choose|to: int|
                                0 <= to < list.len() && list[to] == at as usize;
                            assert(indices@[to] == at as usize);
                        }
                    } else {
                        assert(indices@.last() == index);
                    }
                }
                assert forall|key: Key| #[trigger] switch_keys@.contains(key) implies exists|
                    at: int,
                | 0 <= at < index + 1 && (#[trigger] copies@[at])@.keys.contains(key) by {
                    if switch_before.contains(key) {
                        let at = choose|at: int|
                            0 <= at < index && (#[trigger] copies_before[at])@.keys.contains(key);
                        assert(copies@[at]@.keys.contains(key));
                    } else {
                        assert(copies@[index as int]@.keys.contains(key));
                    }
                }
                assert forall|key: Key|
                    (exists|at: int|
                        0 <= at < index + 1 && (#[trigger] copies@[at])@.keys.contains(
                            key,
                        )) implies #[trigger] switch_keys@.contains(key) by {
                    let at = choose|at: int|
                        0 <= at < index + 1 && (#[trigger] copies@[at])@.keys.contains(key);
                    if at < index {
                        assert(copies_before[at]@.keys.contains(key));
                    }
                }
                assert forall|key: Key| #[trigger] trigger_keys@.contains(key) implies exists|
                    at: int,
                | 0 <= at < index + 1 && (#[trigger] copies@[at])@.trigger == key by {
                    if triggers_before.contains(key) {
                        let at = choose|at: int|
                            0 <= at < index && (#[trigger] copies_before[at])@.trigger == key;
                        assert(copies@[at]@.trigger == key);
                    } else {
                        assert(copies@[index as int]@.trigger == key);
                    }
                }
                assert forall|key: Key|
                    (exists|at: int|
                        0 <= at < index + 1 && (#[trigger] copies@[at])@.trigger
                            == key) implies #[trigger] trigger_keys@.contains(key) by {
                    let at = choose|at: int|
                        0 <= at < index + 1 && (#[trigger] copies@[at])@.trigger == key;
                    if at < index {
                        assert(copies_before[at]@.trigger == key);
                    }
                }
            }
            index = index + 1;
        }
        let router = Router {
            current: 0,
            bindings: copies,
            trigger_bindings,
            switch_keys,
            trigger_keys,
            propagate_switch_keys,
            active_binding: None,
            physical_keys: DeviceKeys::new(),
            blocked_keys: DeviceKeys::new(),
        };
        proof {
            assert(chords(router.bindings@) =~= chords(bindings@));
            assert(forall|at: int|
                0 <= at < router.bindings@.len() ==> router@.bindings[at] == (
                #[trigger] router.bindings@[at])@);
            assert(router.switch_keys@ =~= router@.switch_keys()) by {
                assert forall|key: Key| #[trigger]
                    router.switch_keys@.contains(key) implies router@.switch_keys().contains(
                    key,
                ) by {
                    let at = choose|at: int|
                        0 <= at < index && (#[trigger] router.bindings@[at])@.keys.contains(key);
                    assert(router@.bindings[at].keys.contains(key));
                }
            }
            assert(router.trigger_keys@ =~= router@.trigger_keys()) by {
                assert forall|key: Key| #[trigger]
                    router.trigger_keys@.contains(key) implies router@.trigger_keys().contains(
                    key,
                ) by {
                    let at = choose|at: int|
                        0 <= at < index && (#[trigger] router.bindings@[at])@.trigger == key;
                    assert(router@.bindings[at].trigger == key);
                }
            }
        }
        router
    }

    /// The route that receives the input.
    pub fn current(&self) -> (route: Route)
        ensures
            route == self@.current,
    {
        self.current
    }

    fn pressed_key_union(&self) -> (pressed: KeySet)
        ensures
            pressed@ == self@.pressed(),
    {
        let ids = self.physical_keys.ids();
        let mut pressed = KeySet::new();
        let mut index: usize = 0;
        while index < ids.len()
            invariant
                index <= ids@.len(),
                ids@.to_set() == self.physical_keys@.dom(),
                forall|key: Key| #[trigger]
                    pressed@.contains(key) <==> exists|at: int|
                        0 <= at < index && self.physical_keys@[#[trigger] ids@[at]].contains(key),
            decreases ids@.len() - index,
        {
            let ghost before = pressed@;
            assert(ids@.to_set().contains(ids@[index as int]));
            if let Some(keys) = self.physical_keys.get(ids[index]) {
                pressed.extend(keys);
            }
            proof {
                assert forall|key: Key| #[trigger] pressed@.contains(key) implies exists|at: int|
                    0 <= at < index + 1 && self.physical_keys@[#[trigger] ids@[at]].contains(
                        key,
                    ) by {
                    if before.contains(key) {
                        let at = choose|at: int|
                            0 <= at < index && self.physical_keys@[#[trigger] ids@[at]].contains(
                                key,
                            );
                        assert(self.physical_keys@[ids@[at]].contains(key));
                    } else {
                        assert(self.physical_keys@[ids@[index as int]].contains(key));
                    }
                }
            }
            index = index + 1;
        }
        proof {
            assert forall|key: Key| #[trigger] pressed@.contains(
                key,
            ) implies self@.pressed().contains(key) by {
                let at = choose|at: int|
                    0 <= at < index && self.physical_keys@[#[trigger] ids@[at]].contains(key);
                assert(ids@.to_set().contains(ids@[at]));
                assert(self@.physical.contains_key(ids@[at]));
            }
            assert forall|key: Key| #[trigger] self@.pressed().contains(
                key,
            ) implies pressed@.contains(key) by {
                let device = choose|device: usize| #[trigger]
                    self@.physical.contains_key(device) && self@.physical[device].contains(key);
                let at = lemma_listed(ids@, self.physical_keys@.dom(), device);
                assert(self.physical_keys@[ids@[at]].contains(key));
            }
            assert(pressed@ =~= self@.pressed());
        }
        pressed
    }

    fn clear_inactive_binding(&mut self)
        requires
            old(self).wf(),
        ensures
            final(self).wf(),
            final(self)@ == old(self)@.settled(),
    {
        if let Some(index) = self.active_binding {
            let pressed = self.pressed_key_union();
            if self.bindings[index].keys.is_disjoint(&pressed) {
                self.active_binding = None;
            }
        }
        proof {
            assert(self@.switch_keys() =~= old(self)@.switch_keys());
            assert(self@.trigger_keys() =~= old(self)@.trigger_keys());
        }
    }

    /// The first chord that a trigger completes.
    fn matching_binding(&self, trigger: Key) -> (found: Option<usize>)
        requires
            self.wf(),
        ensures
            match found {
                Some(at) => at < self@.bindings.len() && self@.completed(trigger) == Some(
                    at as int,
                ),
                None => self@.completed(trigger) is None,
            },
    {
        let pressed = self.pressed_key_union();
        let code: u16 = trigger.to_raw().unwrap();
        proof {
            assert forall|at: int| 0 <= at < self.bindings@.len() && (
            #[trigger] self.bindings@[at]).trigger == trigger implies self.trigger_bindings@.contains_key(code)
                && self.trigger_bindings@[code]@.contains(at as usize) by {}
            assert forall|at: int| 0 <= at < self.bindings@.len() && (
            #[trigger] self.bindings@[at]).trigger.code() == code implies self.bindings@[at].trigger
                == trigger by {
                crate::key::key_codes_are_distinct(self.bindings@[at].trigger, trigger);
            }
            assert(forall|at: int|
                0 <= at < self.bindings@.len() ==> (#[trigger] self@.bindings[at])
                    == self.bindings@[at]@);
        }
        if let Some(indices) = self.trigger_bindings.get(&code) {
            let mut index: usize = 0;
            while index < indices.len()
                invariant
                    self.wf(),
                    index <= indices@.len(),
                    self.trigger_bindings@.contains_key(code),
                    indices@ == self.trigger_bindings@[code]@,
                    code == trigger.code(),
                    pressed@ == self@.pressed(),
                    forall|at: int|
                        0 <= at < self.bindings@.len() && (#[trigger] self.bindings@[at]).trigger
                            == trigger ==> indices@.contains(at as usize),
                    forall|at: int|
                        0 <= at < self.bindings@.len() && (
                        #[trigger] self.bindings@[at]).trigger.code() == code
                            ==> self.bindings@[at].trigger == trigger,
                    forall|at: int|
                        0 <= at < self.bindings@.len() ==> (#[trigger] self@.bindings[at])
                            == self.bindings@[at]@,
                    forall|to: int|
                        0 <= to < index ==> !self@.completes(
                            (#[trigger] indices@[to]) as int,
                            trigger,
                        ),
                decreases indices@.len() - index,
            {
                let candidate: usize = indices[index];
                assert(self.trigger_bindings@[code]@[index as int] < self.bindings@.len());
                assert(self@.bindings[candidate as int] == self.bindings@[candidate as int]@);
                if self.bindings[candidate].keys.is_subset(&pressed) {
                    proof {
                        assert(self@.completes(candidate as int, trigger));
                        assert forall|other: int| 0 <= other < candidate implies !#[trigger] self@.completes(
                            other,
                            trigger,
                        ) by {
                            if self@.completes(other, trigger) {
                                assert(self@.bindings[other] == self.bindings@[other]@);
                                assert(self.bindings@[other].trigger == trigger);
                                assert(indices@.contains(other as usize));
                                let to = choose|to: int|
                                    0 <= to < indices@.len() && indices@[to] == other as usize;
                                assert(crate::devices::ascending(indices@));
                                assert(to < index);
                                assert(!self@.completes(indices@[to] as int, trigger));
                            }
                        }
                        assert(self@.completes_first(candidate as int, trigger));
                        lemma_completed(self@, candidate as int, trigger);
                    }
                    return Some(candidate);
                }
                index = index + 1;
            }
            proof {
                assert forall|at: int| !self@.completes_first(at, trigger) by {
                    if self@.completes_first(at, trigger) {
                        assert(self@.bindings[at] == self.bindings@[at]@);
                        assert(self.bindings@[at].trigger == trigger);
                        assert(at < self.bindings.len());
                        assert(indices@.contains(at as usize));
                        let to = choose|to: int|
                            0 <= to < indices@.len() && indices@[to] == at as usize;
                        assert(!self@.completes(indices@[to] as int, trigger));
                    }
                }
            }
        } else {
            proof {
                assert forall|at: int| !self@.completes_first(at, trigger) by {
                    if self@.completes_first(at, trigger) {
                        assert(self@.bindings[at] == self.bindings@[at]@);
                        assert(self.bindings@[at].trigger == trigger);
                    }
                }
            }
        }
        None
    }
}

/// The state of a router is valid.
pub proof fn router_state_is_valid(router: &Router)
    requires
        router.wf(),
    ensures
        router@.valid(),
{
    crate::devices::lemma_finitely_many(router.physical_keys);
}

proof fn lemma_completed(router: RouterView, at: int, trigger: Key)
    requires
        router.completes_first(at, trigger),
    ensures
        router.completed(trigger) == Some(at),
{
    let other = choose|other: int| router.completes_first(other, trigger);
    assert(router.completes_first(other, trigger));
    if other < at {
        assert(!router.completes(other, trigger));
    }
    if at < other {
        assert(!router.completes(at, trigger));
    }
}

impl Router {
    /// Records that a key of a device went down or up.
    fn update_physical_key(&mut self, device_id: usize, key: Key, down: bool)
        requires
            old(self).wf(),
        ensures
            final(self).wf(),
            final(self)@ == old(self)@.with_key(device_id, key, down),
    {
        let mut keys = match self.physical_keys.remove(device_id) {
            Some(keys) => keys,
            None => KeySet::new(),
        };
        if down {
            keys.insert(key);
        } else {
            keys.remove(key);
        }
        self.physical_keys.insert(device_id, keys);
        proof {
            assert(self@.physical =~= old(self)@.with_key(device_id, key, down).physical);
            lemma_same_bindings(old(self)@, self@);
        }
    }

    /// Ends the block of a key of a device.
    fn unblock_key(&mut self, device_id: usize, key: Key)
        requires
            old(self).wf(),
        ensures
            final(self).wf(),
            final(self)@ == old(self)@.without_block(device_id, key),
    {
        if let Some(keys) = self.blocked_keys.remove(device_id) {
            let mut keys = keys;
            keys.remove(key);
            if !keys.is_empty() {
                self.blocked_keys.insert(device_id, keys);
            }
        }
        proof {
            assert(self@.blocked =~= old(self)@.without_block(device_id, key).blocked);
            lemma_same_bindings(old(self)@, self@);
        }
    }

    /// The held keys of a device that must not reach the output of a handoff.
    fn suppressed_keys(&self, device_id: usize, trigger: Option<Key>) -> (suppressed: KeySet)
        requires
            self.wf(),
        ensures
            suppressed@ == self@.suppressed(device_id, trigger),
    {
        let mut suppressed = KeySet::new();
        if let Some(held) = self.physical_keys.get(device_id) {
            let keys = held.to_vec();
            let mut index: usize = 0;
            while index < keys.len()
                invariant
                    self.wf(),
                    index <= keys@.len(),
                    keys@.to_set() == self@.held(device_id),
                    forall|key: Key| #[trigger]
                        suppressed@.contains(key) <==> keys@.take(index as int).contains(key)
                            && self@.suppressed(device_id, trigger).contains(key),
                decreases keys@.len() - index,
            {
                let key = keys[index];
                let ghost before = suppressed@;
                assert(keys@.to_set().contains(keys@[index as int]));
                assert(keys@.take(index + 1) =~= keys@.take(index as int).push(key));
                if !key.is_modifier() || trigger == Some(key) || (!self.propagate_switch_keys
                    && self.switch_keys.contains(key)) {
                    suppressed.insert(key);
                }
                proof {
                    lemma_push_contains(keys@.take(index as int), key);
                }
                index = index + 1;
            }
            proof {
                assert(keys@.take(index as int) =~= keys@);
                assert forall|key: Key| #[trigger] self@.suppressed(device_id, trigger).contains(
                    key,
                ) implies suppressed@.contains(key) by {
                    assert(keys@.to_set().contains(key));
                }
            }
        }
        proof {
            assert(suppressed@ =~= self@.suppressed(device_id, trigger));
        }
        suppressed
    }

    /// Blocks every held key that must not reach the output of a handoff.
    fn block_for_handoff(&mut self, trigger: Option<Key>)
        requires
            old(self).wf(),
        ensures
            final(self).wf(),
            final(self)@ == (RouterView {
                blocked: old(self)@.blocked_by_handoff(trigger),
                ..old(self)@
            }),
    {
        let ids = self.physical_keys.ids();
        let mut blocked_keys = DeviceKeys::new();
        let mut index: usize = 0;
        while index < ids.len()
            invariant
                self.wf(),
                index <= ids@.len(),
                ids@.to_set() == self@.physical.dom(),
                forall|id: usize| #[trigger]
                    blocked_keys@.contains_key(id) <==> ids@.take(index as int).contains(id)
                        && self@.suppressed(id, trigger) != Set::<Key>::empty(),
                forall|id: usize| #[trigger]
                    blocked_keys@.contains_key(id) ==> blocked_keys@[id] == self@.suppressed(
                        id,
                        trigger,
                    ),
            decreases ids@.len() - index,
        {
            let id: usize = ids[index];
            let suppressed = self.suppressed_keys(id, trigger);
            if !suppressed.is_empty() {
                blocked_keys.insert(id, suppressed);
            }
            proof {
                assert(ids@.take(index + 1) =~= ids@.take(index as int).push(id));
                lemma_push_contains(ids@.take(index as int), id);
            }
            index = index + 1;
        }
        proof {
            assert(ids@.take(index as int) =~= ids@);
            assert forall|id: usize| ids@.contains(id) <==> #[trigger] self@.physical.contains_key(
                id,
            ) by {
                assert(ids@.to_set().contains(id) == ids@.contains(id));
            }
            assert(blocked_keys@ =~= self@.blocked_by_handoff(trigger));
        }
        self.blocked_keys = blocked_keys;
        proof {
            lemma_same_bindings(old(self)@, self@);
        }
    }

    /// Blocks what a handoff by a chord must not carry over.
    fn prepare_handoff(&mut self, binding_index: usize)
        requires
            old(self).wf(),
            binding_index < old(self)@.bindings.len(),
        ensures
            final(self).wf(),
            final(self)@ == (RouterView {
                blocked: old(self)@.blocked_by_handoff(
                    Some(old(self)@.bindings[binding_index as int].trigger),
                ),
                ..old(self)@
            }),
    {
        let trigger = self.bindings[binding_index].trigger;
        self.block_for_handoff(Some(trigger));
    }

    /// Blocks what a handoff must not carry over when the current route was lost.
    fn prepare_handoff_without_binding(&mut self)
        requires
            old(self).wf(),
        ensures
            final(self).wf(),
            final(self)@ == (RouterView {
                blocked: old(self)@.blocked_by_handoff(old(self)@.active_trigger()),
                ..old(self)@
            }),
    {
        let active_trigger = match self.active_binding {
            Some(index) => Some(self.bindings[index].trigger),
            None => None,
        };
        self.block_for_handoff(active_trigger);
    }

    /// The keys that the active output should see on a device.
    fn desired_keys(&self, device_id: usize, mode: ReconcileMode) -> (desired: KeySet)
        ensures
            desired@ == self@.desired(device_id, mode),
    {
        let mut desired = KeySet::new();
        if let Some(held) = self.physical_keys.get(device_id) {
            let blocked = self.blocked_keys.get(device_id);
            let keys = held.to_vec();
            let mut index: usize = 0;
            while index < keys.len()
                invariant
                    index <= keys@.len(),
                    keys@.to_set() == self@.held(device_id),
                    match blocked {
                        Some(blocked) => self@.blocked.contains_key(device_id)
                            && self@.blocked[device_id] == blocked@,
                        None => !self@.blocked.contains_key(device_id),
                    },
                    forall|key: Key| #[trigger]
                        desired@.contains(key) <==> keys@.take(index as int).contains(key)
                            && self@.desired(device_id, mode).contains(key),
                decreases keys@.len() - index,
            {
                let key = keys[index];
                assert(keys@.to_set().contains(keys@[index as int]));
                assert(keys@.take(index + 1) =~= keys@.take(index as int).push(key));
                let kept = match blocked {
                    Some(blocked) => !blocked.contains(key),
                    None => true,
                };
                if (mode == ReconcileMode::Recovery || key.is_modifier()) && kept {
                    desired.insert(key);
                }
                proof {
                    lemma_push_contains(keys@.take(index as int), key);
                }
                index = index + 1;
            }
            proof {
                assert(keys@.take(index as int) =~= keys@);
                assert forall|key: Key| #[trigger] self@.desired(device_id, mode).contains(
                    key,
                ) implies desired@.contains(key) by {
                    assert(keys@.to_set().contains(key));
                }
            }
        }
        proof {
            assert(desired@ =~= self@.desired(device_id, mode));
        }
        desired
    }

    /// Adds the actions that bring every known device to a state on one route.
    fn reconcile_route(
        &self,
        route: Route,
        mode: Option<ReconcileMode>,
        actions: &mut Vec<Action>,
    )
        requires
            mode is Some ==> route == self@.current,
        ensures
            action_views(final(actions)@) == action_views(old(actions)@) + match mode {
                Some(mode) => self@.active_states(mode),
                None => self@.releases(route),
            },
    {
        let ids = self.physical_keys.ids();
        let ghost target = match mode {
            Some(mode) => self@.active_states(mode),
            None => self@.releases(route),
        };
        let mut index: usize = 0;
        while index < ids.len()
            invariant
                index <= ids@.len(),
                ids@ == crate::devices::in_order(self@.physical.dom()),
                mode is Some ==> route == self@.current,
                target == (match mode {
                    Some(mode) => self@.active_states(mode),
                    None => self@.releases(route),
                }),
                action_views(actions@) == action_views(old(actions)@) + target.take(index as int),
            decreases ids@.len() - index,
        {
            let device_id: usize = ids[index];
            let pressed_keys = match mode {
                Some(mode) => self.desired_keys(device_id, mode),
                None => KeySet::new(),
            };
            let ghost before = actions@;
            let action = Action::SetKeyState { route, device_id, pressed_keys };
            let ghost added = action@;
            actions.push(action);
            proof {
                assert(action_views(actions@) =~= action_views(before).push(added));
                assert(target.take(index + 1) =~= target.take(index as int).push(
                    target[index as int],
                ));
                assert(added == target[index as int]);
            }
            index = index + 1;
        }
        proof {
            assert(target.take(index as int) =~= target);
        }
    }

    /// The actions that bring every output up to date. Devices come in ascending order.
    fn reconcile_all(&self, routes: &[Route], mode: ReconcileMode) -> (actions: Vec<Action>)
        ensures
            action_views(actions@) == self@.reconciled(routes@, mode),
    {
        let mut actions: Vec<Action> = Vec::new();
        let mut active = false;
        let mut index: usize = 0;
        proof {
            assert(routes@.take(0) =~= Seq::<Route>::empty());
            assert(action_views(actions@) =~= Seq::<ActionView>::empty());
        }
        while index < routes.len()
            invariant
                index <= routes@.len(),
                action_views(actions@) == self@.inactive_releases(routes@.take(index as int)),
                active == routes@.take(index as int).contains(self@.current),
            decreases routes@.len() - index,
        {
            let route: Route = routes[index];
            proof {
                let longer = routes@.take(index + 1);
                assert(longer =~= routes@.take(index as int).push(route));
                assert(longer.drop_last() =~= routes@.take(index as int));
                lemma_push_contains(routes@.take(index as int), route);
            }
            if route != self.current {
                self.reconcile_route(route, None, &mut actions);
            } else {
                active = true;
            }
            index = index + 1;
        }
        proof {
            assert(routes@.take(index as int) =~= routes@);
        }
        if active {
            self.reconcile_route(self.current, Some(mode), &mut actions);
        } else {
            proof {
                assert(action_views(actions@) =~= self@.reconciled(routes@, mode));
            }
        }
        actions
    }

    /// The actions that bring the keys of one device up to date on every output.
    fn reconcile_device(
        &self,
        device_id: usize,
        routes: &[Route],
        mode: ReconcileMode,
    ) -> (actions: Vec<Action>)
        ensures
            action_views(actions@) == self@.device_reconciled(device_id, routes@, mode),
    {
        let mut actions: Vec<Action> = Vec::new();
        let ghost target = self@.device_reconciled(device_id, routes@, mode);
        let mut index: usize = 0;
        while index < routes.len()
            invariant
                index <= routes@.len(),
                target == self@.device_reconciled(device_id, routes@, mode),
                action_views(actions@) == target.take(index as int),
            decreases routes@.len() - index,
        {
            let route: Route = routes[index];
            let pressed_keys = if route == self.current {
                self.desired_keys(device_id, mode)
            } else {
                KeySet::new()
            };
            let ghost before = actions@;
            let action = Action::SetKeyState { route, device_id, pressed_keys };
            let ghost added = action@;
            actions.push(action);
            proof {
                assert(action_views(actions@) =~= action_views(before).push(added));
                assert(target.take(index + 1) =~= target.take(index as int).push(
                    target[index as int],
                ));
                assert(added == target[index as int]);
            }
            index = index + 1;
        }
        proof {
            assert(target.take(index as int) =~= target);
        }
        actions
    }

    /// Adds a device with some of its keys held. Held triggers stay blocked until they are let go.
    pub fn add_device(
        &mut self,
        device_id: usize,
        pressed_keys: KeySet,
        routes: &[Route],
    ) -> (actions: Vec<Action>)
        requires
            old(self).wf(),
        ensures
            final(self).wf(),
            final(self)@ == old(self)@.with_device(device_id, pressed_keys@),
            action_views(actions@) == final(self)@.device_reconciled(
                device_id,
                routes@,
                ReconcileMode::Recovery,
            ),
    {
        let blocked = pressed_keys.intersection(&self.trigger_keys);
        self.physical_keys.insert(device_id, pressed_keys);
        if blocked.is_empty() {
            self.blocked_keys.remove(device_id);
        } else {
            self.blocked_keys.insert(device_id, blocked);
        }
        proof {
            lemma_same_bindings(old(self)@, self@);
        }
        self.reconcile_device(device_id, routes, ReconcileMode::Recovery)
    }

    /// Takes over the keys of a device after its events were lost. No chord takes effect that was
    /// completed in the meantime.
    pub fn reset_device(
        &mut self,
        device_id: usize,
        pressed_keys: KeySet,
        routes: &[Route],
    ) -> (actions: Vec<Action>)
        requires
            old(self).wf(),
        ensures
            final(self).wf(),
            final(self)@ == old(self)@.with_device_reset(device_id, pressed_keys@),
            action_views(actions@) == final(self)@.device_reconciled(
                device_id,
                routes@,
                ReconcileMode::Recovery,
            ),
    {
        self.active_binding = None;
        proof {
            lemma_same_bindings(old(self)@, self@);
        }
        let ghost after = old(self)@.with_device(device_id, pressed_keys@);
        let actions = self.add_device(device_id, pressed_keys, routes);
        let ghost added = self@;
        proof {
            assert(added == (RouterView { active: None, ..after }));
            assert(after.pressed() =~= added.pressed());
        }
        let pressed = self.pressed_key_union();
        let mut index: usize = 0;
        while index < self.bindings.len()
            invariant
                self.wf(),
                self@ == added,
                added == (RouterView { active: None, ..after }),
                after == old(self)@.with_device(device_id, pressed_keys@),
                pressed@ == after.pressed(),
                index <= self.bindings@.len(),
                action_views(actions@) == added.device_reconciled(
                    device_id,
                    routes@,
                    ReconcileMode::Recovery,
                ),
                forall|at: int|
                    0 <= at < index ==> !(#[trigger] after.bindings[at]).keys.subset_of(pressed@),
            decreases self.bindings@.len() - index,
        {
            assert(self@.bindings[index as int] == self.bindings@[index as int]@);
            if self.bindings[index].keys.is_subset(&pressed) {
                self.active_binding = Some(index);
                proof {
                    assert(after.held_first(index as int));
                    lemma_held_chord(after, index as int);
                    lemma_same_bindings(added, self@);
                    lemma_same_keys(added, self@, device_id, routes@, ReconcileMode::Recovery);
                }
                return actions;
            }
            index = index + 1;
        }
        proof {
            assert forall|at: int| !after.held_first(at) by {
                if after.held_first(at) {
                    assert(after.bindings[at].keys.subset_of(pressed@));
                }
            }
        }
        actions
    }

    /// Forgets a device.
    pub fn remove_device(&mut self, device_id: usize)
        requires
            old(self).wf(),
        ensures
            final(self).wf(),
            final(self)@ == old(self)@.without_device(device_id),
    {
        self.physical_keys.remove(device_id);
        self.blocked_keys.remove(device_id);
        proof {
            lemma_same_bindings(old(self)@, self@);
        }
        self.clear_inactive_binding();
    }

    /// Returns to the local machine if the current route is not on the list.
    pub fn retain_routes(&mut self, routes: &[Route]) -> (actions: Vec<Action>)
        requires
            old(self).wf(),
        ensures
            final(self).wf(),
            routes@.contains(old(self)@.current) ==> final(self)@ == old(self)@ && actions@.len()
                == 0,
            !routes@.contains(old(self)@.current) ==> final(self)@ == old(self)@.rehomed()
                && action_views(actions@) == final(self)@.reconciled(
                routes@,
                ReconcileMode::Handoff,
            ),
    {
        let mut index: usize = 0;
        while index < routes.len()
            invariant
                index <= routes@.len(),
                self == old(self),
                self.wf(),
                forall|at: int| 0 <= at < index ==> routes@[at] != self@.current,
            decreases routes@.len() - index,
        {
            if routes[index] == self.current {
                return Vec::new();
            }
            index = index + 1;
        }
        self.current = 0;
        proof {
            lemma_same_bindings(old(self)@, self@);
            lemma_same_suppressed(old(self)@, self@, self@.active_trigger());
        }
        self.prepare_handoff_without_binding();
        self.reconcile_all(routes, ReconcileMode::Handoff)
    }
}

proof fn lemma_push_contains<T>(items: Seq<T>, item: T)
    ensures
        forall|other: T| #[trigger]
            items.push(item).contains(other) <==> items.contains(other) || other == item,
{
    assert forall|other: T| #[trigger] items.push(item).contains(other) <==> items.contains(other)
        || other == item by {
        if items.contains(other) {
            let at = choose|at: int| 0 <= at < items.len() && items[at] == other;
            assert(items.push(item)[at] == other);
        }
        if other == item {
            assert(items.push(item)[items.len() as int] == other);
        }
    }
}

/// The keys and triggers of the chords depend on the chords alone.
pub proof fn lemma_same_bindings(left: RouterView, right: RouterView)
    requires
        left.bindings == right.bindings,
    ensures
        left.switch_keys() == right.switch_keys(),
        left.trigger_keys() == right.trigger_keys(),
{
    assert(left.switch_keys() =~= right.switch_keys());
    assert(left.trigger_keys() =~= right.trigger_keys());
}

/// What a handoff blocks depends on the keys and chords alone.
pub proof fn lemma_same_suppressed(left: RouterView, right: RouterView, trigger: Option<Key>)
    requires
        left.bindings == right.bindings,
        left.propagate == right.propagate,
        left.physical == right.physical,
    ensures
        left.blocked_by_handoff(trigger) == right.blocked_by_handoff(trigger),
{
    lemma_same_bindings(left, right);
    assert forall|device: usize| #[trigger] left.suppressed(device, trigger) == right.suppressed(
        device,
        trigger,
    ) by {
        assert(left.suppressed(device, trigger) =~= right.suppressed(device, trigger));
    }
    assert(left.blocked_by_handoff(trigger) =~= right.blocked_by_handoff(trigger));
}

/// The state of a device's keys on the outputs does not depend on the active chord.
proof fn lemma_same_keys(
    left: RouterView,
    right: RouterView,
    device: usize,
    routes: Seq<Route>,
    mode: ReconcileMode,
)
    requires
        left.current == right.current,
        left.physical == right.physical,
        left.blocked == right.blocked,
    ensures
        left.device_reconciled(device, routes, mode) == right.device_reconciled(
            device,
            routes,
            mode,
        ),
{
    assert(left.desired(device, mode) =~= right.desired(device, mode));
    assert(left.device_reconciled(device, routes, mode) =~= right.device_reconciled(
        device,
        routes,
        mode,
    ));
}

proof fn lemma_held_chord(router: RouterView, at: int)
    requires
        router.held_first(at),
    ensures
        router.held_chord() == Some(at),
{
    let other = choose|other: int| router.held_first(other);
    assert(router.held_first(other));
    if other < at {
        assert(!router.bindings[other].keys.subset_of(router.pressed()));
    }
    if at < other {
        assert(!router.bindings[at].keys.subset_of(router.pressed()));
    }
}

/// The route after the current one.
pub fn next_route(routes: &[Route], current: Route) -> (route: Route)
    ensures
        route == route_after(routes@, current),
{
    let mut index: usize = 0;
    proof {
        assert(routes@.skip(0) =~= routes@);
    }
    while index < routes.len()
        invariant
            index <= routes@.len(),
            route_after(routes@.skip(index as int), current) == route_after(routes@, current),
        decreases routes@.len() - index,
    {
        proof {
            assert(routes@.skip(index as int).drop_first() =~= routes@.skip(index + 1));
        }
        if routes[index] > current {
            return routes[index];
        }
        index = index + 1;
    }
    0
}

/// Turns a queue of routed events into actions, and empties it.
pub fn flush_events(
    device_id: usize,
    pending: &mut Vec<(Route, Event)>,
    actions: &mut Vec<Action>,
)
    ensures
        final(pending)@.len() == 0,
        action_views(final(actions)@) == action_views(old(actions)@) + flushed(
            device_id,
            old(pending)@,
        ),
{
    let ghost queue = pending@;
    let ghost target = action_views(actions@) + flushed(device_id, queue);
    let mut index: usize = 0;
    proof {
        assert(queue.skip(0) =~= queue);
    }
    while index < pending.len()
        invariant
            pending@ == queue,
            index <= queue.len(),
            action_views(actions@) + flushed(device_id, queue.skip(index as int)) == target,
        decreases queue.len() - index,
    {
        let start: usize = index;
        let route: Route = pending[start].0;
        let mut events: Vec<Event> = Vec::new();
        events.push(pending[start].1);
        index = index + 1;
        proof {
            assert(events@ =~= events_of(queue.subrange(start as int, index as int)));
        }
        while index < pending.len() && pending[index].0 == route
            invariant
                pending@ == queue,
                start < index <= queue.len(),
                queue[start as int].0 == route,
                forall|at: int| start <= at < index ==> (#[trigger] queue[at]).0 == route,
                events@ == events_of(queue.subrange(start as int, index as int)),
            decreases queue.len() - index,
        {
            events.push(pending[index].1);
            index = index + 1;
            proof {
                assert(events@ =~= events_of(queue.subrange(start as int, index as int)));
            }
        }
        events.push(Event::Sync(SyncEvent::All));
        let ghost before = actions@;
        let action = Action::Events { route, device_id, events };
        let ghost added = action@;
        actions.push(action);
        proof {
            let rest = queue.skip(start as int);
            lemma_run_length(rest);
            let run = run_length(rest) as int;
            if run < index - start {
                assert(rest[run] == queue[start + run]);
            }
            if index - start < run {
                assert(rest[index - start] == queue[index as int]);
            }
            assert(run == index - start);
            assert(rest.take(run) =~= queue.subrange(start as int, index as int));
            assert(rest.skip(run) =~= queue.skip(index as int));
            assert(action_views(actions@) =~= action_views(before).push(added));
            assert(rest[0] == queue[start as int]);
            assert(flushed(device_id, rest) =~= seq![added] + flushed(
                device_id,
                queue.skip(index as int),
            ));
            assert(action_views(before).push(added) + flushed(device_id, queue.skip(index as int))
                =~= action_views(before) + flushed(device_id, rest));
        }
    }
    proof {
        assert(queue.skip(index as int) =~= Seq::<(Route, Event)>::empty());
        assert(action_views(actions@) + flushed(device_id, queue.skip(index as int))
            =~= action_views(actions@));
    }
    pending.clear();
}

impl Router {
    /// Whether a key of a device is blocked.
    fn blocks(&self, device_id: usize, key: Key) -> (blocked: bool)
        ensures
            blocked == self@.is_blocked(device_id, key),
    {
        match self.blocked_keys.get(device_id) {
            Some(keys) => keys.contains(key),
            None => false,
        }
    }

    /// Routes one key event in the middle of a frame.
    fn process_key(
        &mut self,
        device_id: usize,
        event: KeyEvent,
        routes: &[Route],
        pending: &mut Vec<(Route, Event)>,
        actions: &mut Vec<Action>,
    )
        requires
            old(self).wf(),
        ensures
            final(self).wf(),
            (FrameView {
                router: final(self)@,
                pending: final(pending)@,
                actions: action_views(final(actions)@),
            }) == (FrameView {
                router: old(self)@,
                pending: old(pending)@,
                actions: action_views(old(actions)@),
            }).step(device_id, Event::Key(event), routes@),
    {
        let KeyEvent { key, down } = event;
        let was_blocked = self.blocks(device_id, key);
        self.update_physical_key(device_id, key, down);
        let ghost moved = self@;
        let consumed_by_active = match self.active_binding {
            Some(index) => self.bindings[index].trigger == key,
            None => false,
        };
        proof {
            lemma_same_bindings(old(self)@, moved);
        }
        if was_blocked {
            if !down {
                self.unblock_key(device_id, key);
            }
            self.clear_inactive_binding();
            return;
        }
        if consumed_by_active {
            self.clear_inactive_binding();
            return;
        }
        if down && self.active_binding.is_none() {
            if let Some(binding_index) = self.matching_binding(key) {
                let old_route = self.current;
                if self.propagate_switch_keys {
                    pending.push((old_route, Event::Key(event)));
                }
                flush_events(device_id, pending, actions);
                let ghost flushed_actions = actions@;
                self.current = next_route(routes, old_route);
                self.active_binding = Some(binding_index);
                proof {
                    lemma_same_bindings(moved, self@);
                    lemma_same_suppressed(
                        moved,
                        self@,
                        Some(moved.bindings[binding_index as int].trigger),
                    );
                }
                self.prepare_handoff(binding_index);
                let mut handoff = self.reconcile_all(routes, ReconcileMode::Handoff);
                let ghost added = handoff@;
                actions.append(&mut handoff);
                proof {
                    assert(action_views(actions@) =~= action_views(flushed_actions) + action_views(
                        added,
                    ));
                    assert(pending@ =~= Seq::<(Route, Event)>::empty());
                }
                return;
            }
        }
        if !self.propagate_switch_keys && self.switch_keys.contains(key) {
            self.clear_inactive_binding();
            return;
        }
        pending.push((self.current, Event::Key(event)));
        self.clear_inactive_binding();
    }

    /// Routes a frame of a device.
    pub fn process_frame(
        &mut self,
        device_id: usize,
        events: Vec<Event>,
        routes: &[Route],
    ) -> (actions: Vec<Action>)
        requires
            old(self).wf(),
        ensures
            final(self).wf(),
            final(self)@ == old(self)@.after_frame(device_id, events@, routes@),
            action_views(actions@) == old(self)@.frame_actions(device_id, events@, routes@),
    {
        if !self.physical_keys.contains(device_id) {
            self.physical_keys.insert(device_id, KeySet::new());
        }
        let mut actions: Vec<Action> = Vec::new();
        let mut pending: Vec<(Route, Event)> = Vec::new();
        let ghost start = FrameView {
            router: old(self)@.knowing(device_id),
            pending: seq![],
            actions: seq![],
        };
        proof {
            lemma_same_bindings(old(self)@, self@);
            assert(self@.physical =~= start.router.physical);
            assert(pending@ =~= start.pending);
            assert(action_views(actions@) =~= start.actions);
            assert(events@.take(0) =~= Seq::<Event>::empty());
        }
        let mut index: usize = 0;
        while index < events.len()
            invariant
                index <= events@.len(),
                self.wf(),
                (FrameView {
                    router: self@,
                    pending: pending@,
                    actions: action_views(actions@),
                }) == start.steps(device_id, events@.take(index as int), routes@),
            decreases events@.len() - index,
        {
            let event = events[index];
            let ghost before = FrameView {
                router: self@,
                pending: pending@,
                actions: action_views(actions@),
            };
            match event {
                Event::Sync(SyncEvent::All) => {
                    flush_events(device_id, &mut pending, &mut actions);
                    assert(pending@ =~= Seq::<(Route, Event)>::empty());
                },
                Event::Key(key_event) => {
                    self.process_key(device_id, key_event, routes, &mut pending, &mut actions);
                },
                _ => {
                    pending.push((self.current, event));
                },
            }
            proof {
                let longer = events@.take(index + 1);
                assert(longer.drop_last() =~= events@.take(index as int));
                assert(longer.last() == event);
                assert((FrameView {
                    router: self@,
                    pending: pending@,
                    actions: action_views(actions@),
                }) == before.step(device_id, event, routes@));
            }
            index = index + 1;
        }
        proof {
            assert(events@.take(index as int) =~= events@);
        }
        flush_events(device_id, &mut pending, &mut actions);
        actions
    }
}

} // verus!
