use rkvm::event::{Event, SyncEvent};
use rkvm::key::{Key, KeyEvent, Keyboard};
use rkvm::keyset::KeySet;
use rkvm::rel::{RelAxis, RelEvent};
use rkvm::routing::{flush_events, next_route, Action, Route, Router, SwitchBinding};
use std::collections::HashMap;

fn key(key: Keyboard) -> Key {
    Key::Key(key)
}

fn keys(keyboards: &[Keyboard]) -> KeySet {
    KeySet::from_vec(keyboards.iter().copied().map(key).collect())
}

fn binding(keyboards: &[Keyboard], trigger: Keyboard) -> SwitchBinding {
    SwitchBinding::new(keys(keyboards), key(trigger))
}

fn key_event(keyboard: Keyboard, down: bool) -> Event {
    Event::Key(KeyEvent {
        key: key(keyboard),
        down,
    })
}

fn frame(events: impl IntoIterator<Item = Event>) -> Vec<Event> {
    events
        .into_iter()
        .chain([Event::Sync(SyncEvent::All)])
        .collect()
}

fn set_state(actions: &[Action], route: Route, device_id: usize) -> Option<&KeySet> {
    actions.iter().find_map(|action| match action {
        Action::SetKeyState {
            route: action_route,
            device_id: action_device,
            pressed_keys,
        } if *action_route == route && *action_device == device_id => Some(pressed_keys),
        _ => None,
    })
}

fn routed_key_events(actions: &[Action], route: Route) -> Vec<KeyEvent> {
    actions
        .iter()
        .filter_map(|action| match action {
            Action::Events {
                route: action_route,
                events,
                ..
            } if *action_route == route => Some(events),
            _ => None,
        })
        .flatten()
        .filter_map(|event| match event {
            Event::Key(event) => Some(*event),
            _ => None,
        })
        .collect()
}

fn apply_actions(outputs: &mut HashMap<(Route, usize), KeySet>, actions: &[Action]) {
    for action in actions {
        match action {
            Action::Events {
                route,
                device_id,
                events,
            } => {
                let state = outputs
                    .entry((*route, *device_id))
                    .or_insert_with(KeySet::new);
                for event in events {
                    if let Event::Key(KeyEvent { key, down }) = event {
                        if *down {
                            state.insert(*key);
                        } else {
                            state.remove(*key);
                        }
                    }
                }
            }
            Action::SetKeyState {
                route,
                device_id,
                pressed_keys,
            } => {
                outputs.insert((*route, *device_id), pressed_keys.clone());
            }
        }
    }
}

fn router(propagate: bool) -> Router {
    Router::new(
        &[
            binding(&[Keyboard::LeftMeta, Keyboard::Grave], Keyboard::Grave),
            binding(&[Keyboard::RightCtrl], Keyboard::RightCtrl),
        ],
        propagate,
    )
}

#[test]
fn handoff_releases_old_route_and_reasserts_held_modifiers() {
    let mut router = router(true);
    let routes = [0, 1];
    router.add_device(7, KeySet::new(), &routes);

    router.process_frame(7, frame([key_event(Keyboard::LeftShift, true)]), &routes);
    router.process_frame(7, frame([key_event(Keyboard::LeftMeta, true)]), &routes);
    let actions = router.process_frame(7, frame([key_event(Keyboard::Grave, true)]), &routes);

    assert_eq!(router.current(), 1);
    assert_eq!(
        routed_key_events(&actions, 0),
        vec![KeyEvent {
            key: key(Keyboard::Grave),
            down: true,
        }]
    );
    assert!(set_state(&actions, 0, 7).unwrap().is_empty());
    assert_eq!(
        set_state(&actions, 1, 7).unwrap(),
        &keys(&[Keyboard::LeftShift, Keyboard::LeftMeta])
    );
}

#[test]
fn held_binding_modifier_applies_to_following_shortcut() {
    let mut router = router(true);
    let routes = [0, 1];
    router.add_device(3, KeySet::new(), &routes);
    router.process_frame(3, frame([key_event(Keyboard::LeftMeta, true)]), &routes);
    router.process_frame(3, frame([key_event(Keyboard::Grave, true)]), &routes);
    router.process_frame(3, frame([key_event(Keyboard::Grave, false)]), &routes);

    let actions = router.process_frame(3, frame([key_event(Keyboard::T, true)]), &routes);
    assert_eq!(
        routed_key_events(&actions, 1),
        vec![KeyEvent {
            key: key(Keyboard::T),
            down: true,
        }]
    );

    let actions = router.process_frame(3, frame([key_event(Keyboard::LeftMeta, false)]), &routes);
    assert_eq!(
        routed_key_events(&actions, 1),
        vec![KeyEvent {
            key: key(Keyboard::LeftMeta),
            down: false,
        }]
    );
}

#[test]
fn held_plain_keys_are_released_and_suppressed_until_released() {
    let mut router = router(true);
    let routes = [0, 1];
    router.add_device(2, KeySet::new(), &routes);
    router.process_frame(2, frame([key_event(Keyboard::A, true)]), &routes);
    router.process_frame(2, frame([key_event(Keyboard::LeftMeta, true)]), &routes);
    let actions = router.process_frame(2, frame([key_event(Keyboard::Grave, true)]), &routes);

    assert!(!set_state(&actions, 1, 2)
        .unwrap()
        .contains(key(Keyboard::A)));
    let release = router.process_frame(2, frame([key_event(Keyboard::A, false)]), &routes);
    assert!(routed_key_events(&release, 1).is_empty());
}

#[test]
fn trigger_does_not_leak_to_new_route_while_binding_is_active() {
    let mut router = router(true);
    let routes = [0, 1];
    router.add_device(1, KeySet::new(), &routes);
    router.process_frame(1, frame([key_event(Keyboard::LeftMeta, true)]), &routes);
    router.process_frame(1, frame([key_event(Keyboard::Grave, true)]), &routes);

    for down in [false, true, false] {
        let actions = router.process_frame(1, frame([key_event(Keyboard::Grave, down)]), &routes);
        assert!(routed_key_events(&actions, 1).is_empty());
    }
    assert_eq!(router.current(), 1);
}

#[test]
fn one_key_modifier_trigger_is_not_reasserted() {
    let mut router = router(true);
    let routes = [0, 1];
    router.add_device(4, KeySet::new(), &routes);
    let actions = router.process_frame(4, frame([key_event(Keyboard::RightCtrl, true)]), &routes);

    assert_eq!(router.current(), 1);
    assert!(set_state(&actions, 1, 4).unwrap().is_empty());
}

#[test]
fn disabled_propagation_consumes_switch_binding() {
    let mut router = router(false);
    let routes = [0, 1];
    router.add_device(4, KeySet::new(), &routes);
    let meta = router.process_frame(4, frame([key_event(Keyboard::LeftMeta, true)]), &routes);
    let trigger = router.process_frame(4, frame([key_event(Keyboard::Grave, true)]), &routes);

    assert!(routed_key_events(&meta, 0).is_empty());
    assert!(routed_key_events(&trigger, 0).is_empty());
    assert!(set_state(&trigger, 1, 4).unwrap().is_empty());
}

#[test]
fn route_loss_rehomes_held_modifiers_locally() {
    let mut router = router(true);
    let routes = [0, 1];
    router.add_device(8, KeySet::new(), &routes);
    router.process_frame(8, frame([key_event(Keyboard::LeftMeta, true)]), &routes);
    router.process_frame(8, frame([key_event(Keyboard::Grave, true)]), &routes);
    router.process_frame(8, frame([key_event(Keyboard::Grave, false)]), &routes);

    let actions = router.retain_routes(&[0]);

    assert_eq!(router.current(), 0);
    assert_eq!(
        set_state(&actions, 0, 8).unwrap(),
        &keys(&[Keyboard::LeftMeta])
    );
}

#[test]
fn route_loss_does_not_reassert_active_modifier_trigger() {
    let mut router = router(true);
    let routes = [0, 1];
    router.add_device(8, KeySet::new(), &routes);
    router.process_frame(8, frame([key_event(Keyboard::RightCtrl, true)]), &routes);

    let actions = router.retain_routes(&[0]);

    assert_eq!(router.current(), 0);
    assert!(set_state(&actions, 0, 8).unwrap().is_empty());
}

#[test]
fn recovery_snapshot_restores_full_nontrigger_state() {
    let mut router = router(true);
    let pressed = keys(&[Keyboard::LeftShift, Keyboard::A]);
    let actions = router.add_device(5, pressed, &[0, 1]);

    assert_eq!(
        set_state(&actions, 0, 5).unwrap(),
        &keys(&[Keyboard::LeftShift, Keyboard::A])
    );
    assert!(set_state(&actions, 1, 5).unwrap().is_empty());
}

#[test]
fn recovery_snapshot_blocks_held_trigger_until_release() {
    let mut router = router(true);
    let pressed = keys(&[Keyboard::LeftMeta, Keyboard::Grave]);
    let actions = router.add_device(6, pressed, &[0]);

    assert_eq!(
        set_state(&actions, 0, 6).unwrap(),
        &keys(&[Keyboard::LeftMeta])
    );
    let release = router.process_frame(6, frame([key_event(Keyboard::Grave, false)]), &[0]);
    assert!(routed_key_events(&release, 0).is_empty());
}

#[test]
fn every_modifier_handoff_converges_to_empty_outputs() {
    for modifier in [
        Keyboard::LeftAlt,
        Keyboard::LeftCtrl,
        Keyboard::LeftMeta,
        Keyboard::LeftShift,
        Keyboard::RightAlt,
        Keyboard::RightCtrl,
        Keyboard::RightMeta,
        Keyboard::RightShift,
    ] {
        let mut router = Router::new(
            &[binding(
                &[Keyboard::LeftMeta, Keyboard::Grave],
                Keyboard::Grave,
            )],
            true,
        );
        let routes = [0, 1, 2];
        let mut outputs = HashMap::new();
        apply_actions(&mut outputs, &router.add_device(9, KeySet::new(), &routes));

        for event in [
            key_event(Keyboard::A, true),
            key_event(modifier, true),
            key_event(Keyboard::LeftMeta, true),
            key_event(Keyboard::Grave, true),
        ] {
            let actions = router.process_frame(9, frame([event]), &routes);
            apply_actions(&mut outputs, &actions);
        }

        assert_eq!(router.current(), 1);
        assert!(outputs.get(&(0, 9)).unwrap().is_empty());
        assert!(outputs.get(&(2, 9)).unwrap().is_empty());
        assert!(!outputs.get(&(1, 9)).unwrap().contains(key(Keyboard::A)));
        assert!(outputs.get(&(1, 9)).unwrap().contains(key(modifier)));

        for keyboard in [Keyboard::Grave, Keyboard::LeftMeta, modifier, Keyboard::A] {
            let actions = router.process_frame(9, frame([key_event(keyboard, false)]), &routes);
            apply_actions(&mut outputs, &actions);
        }

        assert!(outputs.values().all(KeySet::is_empty));
    }
}

#[test]
fn chords_can_span_source_devices() {
    let mut router = router(true);
    let routes = [0, 1];
    router.add_device(1, KeySet::new(), &routes);
    router.add_device(2, KeySet::new(), &routes);
    router.process_frame(1, frame([key_event(Keyboard::LeftMeta, true)]), &routes);
    router.process_frame(2, frame([key_event(Keyboard::Grave, true)]), &routes);

    assert_eq!(router.current(), 1);
}

#[test]
fn the_next_route_is_the_first_above_the_current_one() {
    assert_eq!(next_route(&[0, 2, 5], 0), 2);
    assert_eq!(next_route(&[0, 2, 5], 2), 5);
    assert_eq!(next_route(&[0, 2, 5], 3), 5);
    assert_eq!(next_route(&[0, 2, 5], 5), 0);
    assert_eq!(next_route(&[], 5), 0);
}

#[test]
fn queued_events_are_grouped_by_route() {
    let first = key_event(Keyboard::A, true);
    let second = Event::Rel(RelEvent {
        axis: RelAxis::X,
        value: 3,
    });
    let third = key_event(Keyboard::A, false);
    let mut pending = vec![(0, first), (0, second), (1, third)];
    let mut actions = Vec::new();
    flush_events(4, &mut pending, &mut actions);

    assert!(pending.is_empty());
    assert_eq!(actions.len(), 2);
    match &actions[0] {
        Action::Events {
            route,
            device_id,
            events,
        } => {
            assert_eq!((*route, *device_id), (0, 4));
            assert_eq!(events, &vec![first, second, Event::Sync(SyncEvent::All)]);
        }
        other => panic!("unexpected action {:?}", other),
    }
    match &actions[1] {
        Action::Events {
            route,
            device_id,
            events,
        } => {
            assert_eq!((*route, *device_id), (1, 4));
            assert_eq!(events, &vec![third, Event::Sync(SyncEvent::All)]);
        }
        other => panic!("unexpected action {:?}", other),
    }
}

#[test]
fn an_unfinished_frame_is_closed() {
    let mut router = router(true);
    let actions = router.process_frame(3, vec![key_event(Keyboard::A, true)], &[0]);
    assert_eq!(actions.len(), 1);
    match &actions[0] {
        Action::Events { events, .. } => assert_eq!(
            events,
            &vec![key_event(Keyboard::A, true), Event::Sync(SyncEvent::All)]
        ),
        other => panic!("unexpected action {:?}", other),
    }
}

#[test]
fn an_empty_frame_does_nothing() {
    let mut router = router(true);
    assert!(router
        .process_frame(3, vec![Event::Sync(SyncEvent::All)], &[0])
        .is_empty());
}

#[test]
fn chords_go_through_all_routes_and_back() {
    let mut router = router(true);
    let routes = [0, 2, 3];
    router.add_device(1, KeySet::new(), &routes);
    let mut visited = Vec::new();
    for _ in 0..4 {
        router.process_frame(1, frame([key_event(Keyboard::RightCtrl, true)]), &routes);
        router.process_frame(1, frame([key_event(Keyboard::RightCtrl, false)]), &routes);
        visited.push(router.current());
    }
    assert_eq!(visited, vec![2, 3, 0, 2]);
}

#[test]
fn a_chord_switches_once_until_its_keys_are_let_go() {
    let mut router = router(true);
    let routes = [0, 1, 2];
    router.add_device(1, KeySet::new(), &routes);
    router.process_frame(1, frame([key_event(Keyboard::LeftMeta, true)]), &routes);
    router.process_frame(1, frame([key_event(Keyboard::Grave, true)]), &routes);
    router.process_frame(1, frame([key_event(Keyboard::Grave, false)]), &routes);
    router.process_frame(1, frame([key_event(Keyboard::Grave, true)]), &routes);
    assert_eq!(router.current(), 1);
    router.process_frame(1, frame([key_event(Keyboard::Grave, false)]), &routes);
    router.process_frame(1, frame([key_event(Keyboard::LeftMeta, false)]), &routes);
    router.process_frame(1, frame([key_event(Keyboard::LeftMeta, true)]), &routes);
    router.process_frame(1, frame([key_event(Keyboard::Grave, true)]), &routes);
    assert_eq!(router.current(), 2);
}

#[test]
fn the_trigger_must_come_last() {
    let mut router = router(true);
    let routes = [0, 1];
    router.add_device(1, KeySet::new(), &routes);
    router.process_frame(1, frame([key_event(Keyboard::Grave, true)]), &routes);
    router.process_frame(1, frame([key_event(Keyboard::LeftMeta, true)]), &routes);
    assert_eq!(router.current(), 0);
}

#[test]
fn a_blocked_key_stays_blocked_through_another_switch() {
    let mut router = router(true);
    let routes = [0, 1, 2];
    router.add_device(1, KeySet::new(), &routes);
    router.process_frame(1, frame([key_event(Keyboard::A, true)]), &routes);
    router.process_frame(1, frame([key_event(Keyboard::RightCtrl, true)]), &routes);
    router.process_frame(1, frame([key_event(Keyboard::RightCtrl, false)]), &routes);
    let actions = router.process_frame(1, frame([key_event(Keyboard::RightCtrl, true)]), &routes);
    assert_eq!(router.current(), 2);
    assert!(!set_state(&actions, 2, 1).unwrap().contains(key(Keyboard::A)));
    let release = router.process_frame(1, frame([key_event(Keyboard::A, false)]), &routes);
    assert!(routed_key_events(&release, 2).is_empty());
    let press = router.process_frame(1, frame([key_event(Keyboard::A, true)]), &routes);
    assert_eq!(routed_key_events(&press, 2).len(), 1);
}

#[test]
fn a_reset_does_not_switch() {
    let mut router = router(true);
    let routes = [0, 1];
    router.add_device(1, KeySet::new(), &routes);
    let actions = router.reset_device(
        1,
        keys(&[Keyboard::LeftMeta, Keyboard::Grave, Keyboard::A]),
        &routes,
    );
    assert_eq!(router.current(), 0);
    assert_eq!(
        set_state(&actions, 0, 1).unwrap(),
        &keys(&[Keyboard::LeftMeta, Keyboard::A])
    );
    let again = router.process_frame(1, frame([key_event(Keyboard::Grave, true)]), &routes);
    assert!(again.is_empty());
    assert_eq!(router.current(), 0);
}

#[test]
fn a_removed_device_no_longer_holds_a_chord() {
    let mut router = router(true);
    let routes = [0, 1];
    router.add_device(1, KeySet::new(), &routes);
    router.add_device(2, KeySet::new(), &routes);
    router.process_frame(1, frame([key_event(Keyboard::LeftMeta, true)]), &routes);
    router.remove_device(1);
    router.process_frame(2, frame([key_event(Keyboard::Grave, true)]), &routes);
    assert_eq!(router.current(), 0);
}

#[test]
fn a_present_route_is_kept() {
    let mut router = router(true);
    router.add_device(1, KeySet::new(), &[0, 1]);
    assert!(router.retain_routes(&[0]).is_empty());
    assert_eq!(router.current(), 0);
}

#[test]
fn consumed_chord_keys_that_were_held_before_stay_shown() {
    let mut router = router(false);
    let actions = router.add_device(1, keys(&[Keyboard::LeftMeta]), &[0]);
    assert_eq!(
        set_state(&actions, 0, 1).unwrap(),
        &keys(&[Keyboard::LeftMeta])
    );
    let release = router.process_frame(1, frame([key_event(Keyboard::LeftMeta, false)]), &[0]);
    assert!(release.is_empty());
}
