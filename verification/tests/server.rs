use rkvm::abs::{AbsAxis, AbsInfo};
use rkvm::axes::{AbsMap, RelSet};
use rkvm::channel::{Outbox, SendOutcome};
use rkvm::event::{Event, SyncEvent};
use rkvm::interceptor::{Interceptor, RawCapabilities, Repeat};
use rkvm::io_error::{ErrorKind, IoError};
use rkvm::key::{Key, KeyEvent, Keyboard};
use rkvm::keyset::KeySet;
use rkvm::monitor::ReleaseCause;
use rkvm::rel::RelAxis;
use rkvm::routing::{Action, Router, SwitchBinding};
use rkvm::server::{
    available_routes, create_device_update, dispatch_actions, is_current_device_event,
    remove_dead_clients, reset_client_device, settle_update, stabilize_routes, try_send_update,
    Device, Error, Server,
};
use rkvm::slots::Client;
use rkvm::update::{DeviceCommand, Update};
use slab::Slab;
use std::collections::HashSet;
use tokio::sync::mpsc::{self, Receiver, Sender};

fn client_entry() -> Client {
    let (sender, _) = mpsc::channel(1);
    (sender, "127.0.0.1:1234".parse().unwrap())
}

fn test_device() -> Device {
    Device {
        activation_id: 0,
        name: b"test".to_vec(),
        vendor: 1,
        product: 2,
        version: 3,
        rel: RelSet::new(),
        abs: AbsMap::new(),
        keys: KeySet::new(),
        delay: None,
        period: None,
        sender: mpsc::channel(1).0,
    }
}

#[test]
fn stale_task_event_does_not_target_reused_device_id() {
    let mut devices = Slab::new();
    let mut first = test_device();
    first.activation_id = 10;
    let id = devices.insert(first);
    assert!(is_current_device_event(&devices, id, 10));

    devices.remove(id);
    let mut replacement = test_device();
    replacement.activation_id = 11;
    assert_eq!(devices.insert(replacement), id);

    assert!(!is_current_device_event(&devices, id, 10));
    assert!(is_current_device_event(&devices, id, 11));
}

#[test]
fn available_routes_preserve_sparse_client_ids() {
    let mut clients = Slab::new();
    let first = clients.insert(client_entry());
    let second = clients.insert(client_entry());
    clients.remove(first);

    assert_eq!(available_routes(&clients), vec![0, second + 1]);
}

#[test]
fn local_reset_command_is_ordered_after_queued_frames() {
    let (sender, mut receiver) = mpsc::channel(2);

    sender.try_send(DeviceCommand::Events(Vec::new())).unwrap();
    sender.try_send(DeviceCommand::Reset).unwrap();

    assert!(matches!(
        receiver.try_recv().unwrap(),
        DeviceCommand::Events(events) if events.is_empty()
    ));
    assert!(matches!(receiver.try_recv().unwrap(), DeviceCommand::Reset));
}

#[test]
fn reset_client_device_disconnects_on_partial_barrier_enqueue() {
    let mut clients = Slab::new();
    let (sender, mut receiver) = mpsc::channel(1);
    let key = clients.insert((sender, "127.0.0.1:1234".parse().unwrap()));
    let device = test_device();

    assert!(!reset_client_device(
        &mut clients,
        key,
        7,
        &device,
        &mut Outbox::new()
    ));
    assert!(!clients.contains(key));
    assert!(matches!(
        receiver.try_recv().unwrap(),
        Update::DestroyDevice { id: 7 }
    ));
}

#[test]
fn dispatches_local_reconciliation_as_one_command() {
    let (sender, mut receiver) = mpsc::channel(1);
    let mut devices = Slab::new();
    let mut device = test_device();
    device.sender = sender;
    let id = devices.insert(device);
    let ctrl = Key::Key(Keyboard::LeftCtrl);

    dispatch_actions(
        vec![Action::SetKeyState {
            route: 0,
            device_id: id,
            pressed_keys: KeySet::from_vec(vec![ctrl]),
        }],
        &devices,
        &mut Slab::new(),
        &mut Outbox::new(),
    )
    .unwrap();

    assert!(matches!(
        receiver.try_recv().unwrap(),
        DeviceCommand::SetKeyState(keys) if keys == KeySet::from_vec(vec![ctrl])
    ));
}

fn client(size: usize) -> (Client, Receiver<Update>) {
    let (sender, receiver) = mpsc::channel(size);
    ((sender, "client".to_owned()), receiver)
}

fn device(activation_id: u64, size: usize) -> (Device, Receiver<DeviceCommand>) {
    let (sender, receiver) = mpsc::channel(size);
    let device = Device {
        activation_id,
        sender,
        ..test_device()
    };
    (device, receiver)
}

fn key(key: Keyboard, down: bool) -> Event {
    Event::Key(KeyEvent {
        key: Key::Key(key),
        down,
    })
}

fn frame(name: Keyboard, down: bool) -> Vec<Event> {
    vec![key(name, down), Event::Sync(SyncEvent::All)]
}

fn events(id: usize, events: Vec<Event>) -> String {
    format!("{:?}", Update::Events { id, events })
}

fn received<T: std::fmt::Debug>(receiver: &mut Receiver<T>) -> Vec<String> {
    let mut texts = Vec::new();
    while let Ok(message) = receiver.try_recv() {
        texts.push(format!("{:?}", message));
    }
    texts
}

fn switch_on_f1() -> Vec<SwitchBinding> {
    let f1 = Key::Key(Keyboard::F1);
    vec![SwitchBinding::new(KeySet::from_vec(vec![f1]), f1)]
}

#[test]
fn a_device_is_made_known_with_all_it_can_do() {
    let info = AbsInfo {
        min: -1,
        max: 1,
        fuzz: 2,
        flat: 3,
        resolution: 4,
    };
    let device = Device {
        rel: RelSet::from_vec(vec![RelAxis::X]),
        abs: AbsMap::from_vec(vec![(AbsAxis::Y, info)]),
        keys: KeySet::from_vec(vec![Key::Key(Keyboard::A)]),
        delay: Some(250),
        period: Some(33),
        ..test_device()
    };
    let expected = Update::CreateDevice {
        id: 4,
        name: b"test".to_vec(),
        version: 3,
        vendor: 1,
        product: 2,
        rel: RelSet::from_vec(vec![RelAxis::X]),
        abs: AbsMap::from_vec(vec![(AbsAxis::Y, info)]),
        keys: KeySet::from_vec(vec![Key::Key(Keyboard::A)]),
        delay: Some(250),
        period: Some(33),
    };
    assert_eq!(
        format!("{:?}", create_device_update(4, &device)),
        format!("{:?}", expected)
    );
}

fn range(max: i32) -> AbsInfo {
    AbsInfo {
        min: 0,
        max,
        fuzz: 0,
        flat: 0,
        resolution: 0,
    }
}

#[test]
fn a_device_has_each_axis_and_key_once() {
    let capabilities = RawCapabilities {
        rel: vec![0, 8, 0x0f, 0],
        abs: vec![(1, range(5)), (0, range(6)), (1, range(7))],
        key: vec![30, 0x2ff, 48, 30],
        repeat: Repeat {
            delay: Some(250),
            period: Some(33),
        },
    };
    let interceptor = Interceptor::new(b"pad".to_vec(), 1, 2, 3, capabilities);
    let device = Device::new(9, &interceptor, mpsc::channel(1).0);
    assert_eq!(device.activation_id, 9);
    assert_eq!(device.name, b"pad");
    assert_eq!((device.vendor, device.product, device.version), (1, 2, 3));
    assert_eq!((device.delay, device.period), (Some(250), Some(33)));
    assert_eq!(device.rel.to_vec(), [RelAxis::X, RelAxis::Wheel]);
    let pairs = device.abs.to_vec();
    assert_eq!(pairs.len(), 2);
    assert!(pairs.contains(&(AbsAxis::Y, range(7))));
    assert!(pairs.contains(&(AbsAxis::X, range(6))));
    assert_eq!(
        device.keys,
        KeySet::from_vec(vec![Key::Key(Keyboard::A), Key::Key(Keyboard::B)])
    );
    assert_eq!(device.keys.to_vec().len(), 2);
}

#[test]
fn collections_of_axes_can_be_empty() {
    assert!(RelSet::new().to_vec().is_empty());
    assert!(AbsMap::new().to_vec().is_empty());
    assert!(RelSet::from_vec(Vec::new()).clone().to_vec().is_empty());
}

#[test]
fn a_device_whose_task_has_gone_is_removed_after_lost_input() {
    let mut server = Server::new(&switch_on_f1(), true);
    let (local, mut commands) = device(5, 8);
    let id = server.activated(local, KeySet::new()).unwrap();
    received(&mut commands);
    assert!(server.input_lost(id, 5));
    let a = Key::Key(Keyboard::A);
    let cause = server.recover(id, false, KeySet::from_vec(vec![a])).unwrap();
    assert_eq!(cause, Some(ReleaseCause::Failed));
    assert!(received(&mut commands).is_empty());
    let cause = server.recover(id, true, KeySet::from_vec(vec![a])).unwrap();
    assert_eq!(cause, None);
    assert_eq!(
        received(&mut commands),
        [format!(
            "{:?}",
            DeviceCommand::SetKeyState(KeySet::from_vec(vec![a]))
        )]
    );
}

#[test]
fn a_client_that_does_not_keep_up_is_dropped() {
    let mut clients = Slab::new();
    let mut outbox = Outbox::new();
    let (entry, mut receiver) = client(1);
    let key = clients.insert(entry);
    assert!(try_send_update(&mut clients, key, Update::Ping, &mut outbox));
    assert!(!try_send_update(&mut clients, key, Update::Ping, &mut outbox));
    assert!(!clients.contains(key));
    assert!(!try_send_update(&mut clients, key, Update::Ping, &mut outbox));
    assert_eq!(received(&mut receiver), vec!["Ping"]);
}

#[test]
fn a_client_that_is_gone_is_dropped() {
    let mut clients = Slab::new();
    let mut outbox = Outbox::new();
    let (gone, receiver) = client(1);
    drop(receiver);
    let (alive, _receiver) = client(1);
    let gone = clients.insert(gone);
    let alive = clients.insert(alive);
    remove_dead_clients(&mut clients, &mut outbox);
    assert!(!clients.contains(gone));
    assert!(clients.contains(alive));

    let (entry, receiver) = client(1);
    drop(receiver);
    let gone = clients.insert(entry);
    assert!(!try_send_update(&mut clients, gone, Update::Ping, &mut outbox));
    assert!(!clients.contains(gone));
    assert!(settle_update(&mut clients, alive, SendOutcome::Sent));
    assert!(clients.contains(alive));
    assert!(!settle_update(&mut clients, alive, SendOutcome::Closed));
    assert!(clients.is_empty());
}

#[test]
fn actions_go_to_the_output_of_their_route() {
    let mut devices = Slab::new();
    let mut clients: Slab<Client> = Slab::new();
    let (local, mut commands) = device(0, 8);
    let id = devices.insert(local);
    let (entry, mut updates) = client(8);
    let client = clients.insert(entry);
    let action = |route: usize, device_id: usize, name: Keyboard| Action::Events {
        route,
        device_id,
        events: frame(name, true),
    };
    dispatch_actions(
        vec![
            action(0, id, Keyboard::A),
            action(client + 1, id, Keyboard::B),
            action(0, id + 9, Keyboard::C),
            action(client + 2, id, Keyboard::D),
        ],
        &devices,
        &mut clients,
        &mut Outbox::new(),
    )
    .unwrap();
    assert_eq!(
        received(&mut commands),
        vec![format!("{:?}", DeviceCommand::Events(frame(Keyboard::A, true)))]
    );
    assert_eq!(
        received(&mut updates),
        vec![events(id, frame(Keyboard::B, true))]
    );
}

#[test]
fn a_local_device_that_does_not_keep_up_stops_the_server() {
    let mut devices = Slab::new();
    let (local, mut commands) = device(0, 1);
    let id = devices.insert(local);
    let action = || Action::Events {
        route: 0,
        device_id: id,
        events: Vec::new(),
    };
    let err = dispatch_actions(
        vec![action(), action(), action()],
        &devices,
        &mut Slab::new(),
        &mut Outbox::new(),
    )
    .unwrap_err();
    assert!(matches!(err, Error::Overflow));
    assert_eq!(received(&mut commands).len(), 1);

    let (closed, receiver) = device(1, 1);
    drop(receiver);
    let id = devices.insert(closed);
    let action = Action::Events {
        route: 0,
        device_id: id,
        events: Vec::new(),
    };
    assert!(dispatch_actions(vec![action], &devices, &mut Slab::new(), &mut Outbox::new()).is_ok());
}

#[test]
fn errors_of_the_server_have_texts() {
    let cause = || IoError::new(ErrorKind::Other, "cause");
    assert_eq!(Error::Network(cause()).message(), "Network error: cause");
    assert_eq!(Error::Input(cause()).message(), "Input error: cause");
    assert_eq!(Error::Overflow.message(), "Event queue overflow");
}

#[test]
fn a_lost_route_leads_back_to_this_machine() {
    let mut router = Router::new(&switch_on_f1(), true);
    let mut devices = Slab::new();
    let (local, mut commands) = device(0, 8);
    devices.insert(local);
    router.add_device(0, KeySet::new(), &[0, 1]);
    router.process_frame(0, frame(Keyboard::F1, true), &[0, 1]);
    router.process_frame(0, frame(Keyboard::LeftShift, true), &[0, 1]);
    assert_eq!(router.current(), 1);
    let mut outbox = Outbox::new();
    stabilize_routes(&mut router, &devices, &mut Slab::new(), &mut outbox).unwrap();
    assert_eq!(router.current(), 0);
    assert_eq!(received(&mut commands).len(), 1);
    stabilize_routes(&mut router, &devices, &mut Slab::new(), &mut outbox).unwrap();
    assert!(received(&mut commands).is_empty());
}

fn join(server: &mut Server, size: usize) -> (usize, Receiver<Update>) {
    let (sender, receiver): (Sender<Update>, Receiver<Update>) = mpsc::channel(size);
    (
        server.authenticated(sender, "addr".to_owned()).unwrap(),
        receiver,
    )
}

#[test]
fn clients_are_told_of_all_devices() {
    let mut server = Server::new(&switch_on_f1(), true);
    let (_, mut early) = join(&mut server, 8);
    let (first, _first_commands) = device(5, 8);
    let id = server.next_device_id();
    assert_eq!(server.activated(first, KeySet::new()).unwrap(), id);
    let (second, _second_commands) = device(6, 8);
    let other = server.activated(second, KeySet::new()).unwrap();
    let (key, mut late) = join(&mut server, 8);
    assert_eq!(server.client(key).unwrap().1, "addr");
    assert_eq!(server.device(id).unwrap().activation_id, 5);
    assert_eq!(server.device_of(6), Some(other));
    assert_eq!(server.device_of(7), None);
    let expected: Vec<String> = [id, other]
        .iter()
        .map(|id| format!("{:?}", create_device_update(*id, &test_device())))
        .collect();
    assert_eq!(received(&mut late), expected);
    let released = |id: usize| Update::SetKeyState {
        id,
        pressed_keys: KeySet::new(),
    };
    assert_eq!(
        received(&mut early),
        vec![
            expected[0].clone(),
            format!("{:?}", released(id)),
            expected[1].clone(),
            format!("{:?}", released(other)),
        ]
    );
}

#[test]
fn a_client_that_cannot_take_all_devices_is_dropped() {
    let mut server = Server::new(&switch_on_f1(), true);
    let (first, _first_commands) = device(5, 8);
    server.activated(first, KeySet::new()).unwrap();
    let (second, _second_commands) = device(6, 8);
    server.activated(second, KeySet::new()).unwrap();
    let (key, mut receiver) = join(&mut server, 1);
    assert!(server.client(key).is_none());
    assert_eq!(received(&mut receiver).len(), 1);
}

#[test]
fn frames_go_where_the_switch_keys_lead() {
    let mut server = Server::new(&switch_on_f1(), false);
    let (client, mut updates) = join(&mut server, 8);
    let (local, mut commands) = device(5, 8);
    let id = server.activated(local, KeySet::new()).unwrap();
    received(&mut updates);
    received(&mut commands);

    assert!(server.frame(id, 5, frame(Keyboard::A, true)).unwrap());
    assert!(server.frame(id, 5, frame(Keyboard::A, false)).unwrap());
    assert_eq!(received(&mut commands).len(), 2);
    assert!(received(&mut updates).is_empty());

    assert!(server.frame(id, 5, frame(Keyboard::F1, true)).unwrap());
    assert!(server.frame(id, 5, frame(Keyboard::F1, false)).unwrap());
    assert_eq!(server.current_route(), client + 1);
    received(&mut updates);
    received(&mut commands);
    assert!(server.frame(id, 5, frame(Keyboard::B, true)).unwrap());
    assert_eq!(
        received(&mut updates),
        vec![events(id, frame(Keyboard::B, true))]
    );
    assert!(received(&mut commands).is_empty());

    assert!(!server.frame(id, 4, frame(Keyboard::C, true)).unwrap());
    assert!(received(&mut updates).is_empty());

    drop(updates);
    server.accepted().unwrap();
    assert!(server.client(client).is_none());
    assert_eq!(server.current_route(), 0);
}

#[test]
fn lost_input_makes_the_device_anew() {
    let mut server = Server::new(&switch_on_f1(), true);
    let (_, mut updates) = join(&mut server, 8);
    let (local, mut commands) = device(5, 8);
    let id = server.activated(local, KeySet::new()).unwrap();
    received(&mut updates);
    received(&mut commands);

    assert!(!server.input_lost(id, 4));
    assert!(received(&mut updates).is_empty());
    assert!(server.input_lost(id, 5));
    assert_eq!(
        received(&mut updates),
        vec![
            format!("{:?}", Update::DestroyDevice { id }),
            format!("{:?}", create_device_update(id, &test_device())),
        ]
    );
    let shift = Key::Key(Keyboard::LeftShift);
    server
        .reset_device(id, KeySet::from_vec(vec![shift]))
        .unwrap();
    assert_eq!(
        received(&mut commands),
        vec![format!(
            "{:?}",
            DeviceCommand::SetKeyState(KeySet::from_vec(vec![shift]))
        )]
    );
}

#[test]
fn removed_devices_are_taken_from_all_clients() {
    let mut server = Server::new(&switch_on_f1(), true);
    let (_, mut updates) = join(&mut server, 8);
    let (local, _commands) = device(5, 8);
    let id = server.activated(local, KeySet::new()).unwrap();
    received(&mut updates);

    assert_eq!(server.begin_destroy(id + 1), None);
    assert_eq!(server.begin_destroy(id), Some(5));
    server.finish_destroy(id).unwrap();
    assert_eq!(
        received(&mut updates),
        vec![format!("{:?}", Update::DestroyDevice { id })]
    );
    assert!(server.device(id).is_none());
    assert_eq!(server.next_device_id(), id);

    let (local, _commands) = device(6, 8);
    assert_eq!(server.activated(local, KeySet::new()).unwrap(), id);
    assert!(server.is_current(id, 6));
    assert!(!server.is_current(id, 5));
}

#[test]
fn failures_end_a_takeover() {
    let mut server = Server::new(&switch_on_f1(), true);
    let (local, _commands) = device(5, 8);
    let id = server.activated(local, KeySet::new()).unwrap();
    let gone = IoError::from_raw_os_error(libc::ENODEV);
    let broken = IoError::new(ErrorKind::Other, "broken");
    assert_eq!(
        server.failure(id, 5, &gone),
        Some(ReleaseCause::Disconnected)
    );
    assert_eq!(server.failure(id, 5, &broken), Some(ReleaseCause::Failed));
    assert_eq!(server.failure(id, 4, &broken), None);
}

#[test]
fn a_full_queue_of_a_new_device_stops_the_server() {
    let mut server = Server::new(&switch_on_f1(), true);
    let (local, _commands) = device(5, 1);
    let id = server.activated(local, KeySet::new()).unwrap();
    while let Ok(routed) = server.frame(id, 5, frame(Keyboard::A, true)) {
        assert!(routed);
    }
    assert!(matches!(
        server.frame(id, 5, frame(Keyboard::A, false)),
        Err(Error::Overflow)
    ));
}

/// Carries out the commands of a device on a set of keys.
fn carry_out(commands: &mut Receiver<DeviceCommand>, keys: &mut HashSet<Key>) {
    while let Ok(command) = commands.try_recv() {
        match command {
            DeviceCommand::Events(events) => {
                for event in events {
                    match event {
                        Event::Key(KeyEvent { key, down: true }) => keys.insert(key),
                        Event::Key(KeyEvent { key, down: false }) => keys.remove(&key),
                        _ => false,
                    };
                }
            }
            DeviceCommand::SetKeyState(state) => *keys = state.to_vec().into_iter().collect(),
            DeviceCommand::Reset => keys.clear(),
        }
    }
}

#[test]
fn keys_stay_in_step_when_the_new_output_fails() {
    let mut server = Server::new(&switch_on_f1(), true);
    let (client, _updates) = join(&mut server, 2);
    let (local, mut commands) = device(5, 32);
    let id = server.activated(local, KeySet::new()).unwrap();
    assert!(server.client(client).is_some());

    let mut keys = HashSet::new();
    let shift = Key::Key(Keyboard::LeftShift);
    server.frame(id, 5, frame(Keyboard::LeftShift, true)).unwrap();
    carry_out(&mut commands, &mut keys);
    assert_eq!(keys, HashSet::from([shift]));

    server.frame(id, 5, frame(Keyboard::F1, true)).unwrap();
    assert!(server.client(client).is_none());
    assert_eq!(server.current_route(), 0);
    carry_out(&mut commands, &mut keys);
    assert_eq!(keys, HashSet::from([shift]));

    server.frame(id, 5, frame(Keyboard::F1, false)).unwrap();
    server.frame(id, 5, frame(Keyboard::LeftShift, false)).unwrap();
    carry_out(&mut commands, &mut keys);
    assert!(keys.is_empty());
}

#[test]
fn a_switch_moves_the_held_modifiers() {
    let mut server = Server::new(&switch_on_f1(), true);
    let (_, mut updates) = join(&mut server, 32);
    let (local, mut commands) = device(5, 32);
    let id = server.activated(local, KeySet::new()).unwrap();
    let mut keys = HashSet::new();
    server.frame(id, 5, frame(Keyboard::LeftShift, true)).unwrap();
    server.frame(id, 5, frame(Keyboard::A, true)).unwrap();
    received(&mut updates);

    server.frame(id, 5, frame(Keyboard::F1, true)).unwrap();
    carry_out(&mut commands, &mut keys);
    assert!(keys.is_empty());
    assert_eq!(
        received(&mut updates),
        vec![format!(
            "{:?}",
            Update::SetKeyState {
                id,
                pressed_keys: KeySet::from_vec(vec![Key::Key(Keyboard::LeftShift)]),
            }
        )]
    );

    server.frame(id, 5, frame(Keyboard::A, false)).unwrap();
    server.frame(id, 5, frame(Keyboard::F1, false)).unwrap();
    assert!(received(&mut updates).is_empty());
    server.frame(id, 5, frame(Keyboard::LeftShift, false)).unwrap();
    assert_eq!(
        received(&mut updates),
        vec![events(id, frame(Keyboard::LeftShift, false))]
    );
}

#[test]
fn the_removal_of_a_device_leaves_the_others_alone() {
    let mut server = Server::new(&switch_on_f1(), true);
    let (first, _first_commands) = device(5, 32);
    let first = server.activated(first, KeySet::new()).unwrap();
    let (second, mut commands) = device(6, 32);
    let second = server.activated(second, KeySet::new()).unwrap();
    let mut keys = HashSet::new();
    server.frame(second, 6, frame(Keyboard::A, true)).unwrap();
    server.begin_destroy(first);
    server.finish_destroy(first).unwrap();
    carry_out(&mut commands, &mut keys);
    assert_eq!(keys, HashSet::from([Key::Key(Keyboard::A)]));
    server.frame(second, 6, frame(Keyboard::A, false)).unwrap();
    carry_out(&mut commands, &mut keys);
    assert!(keys.is_empty());
}
