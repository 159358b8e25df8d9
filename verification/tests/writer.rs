use rkvm::abs::{AbsAxis, AbsEvent, AbsInfo, ToolType};
use rkvm::event::{
    Event, SyncEvent, ABS_MT_TOOL_TYPE, BUS_VIRTUAL, EV_ABS, EV_KEY, EV_REL, EV_SYN, KEY_A, REL_X,
    REP_DELAY, REP_PERIOD, SYN_MT_REPORT, SYN_REPORT,
};
use rkvm::interceptor::CreateError;
use rkvm::io_error::{ErrorKind, IoError};
use rkvm::key::{Button, Key, KeyEvent, Keyboard};
use rkvm::keyset::KeySet;
use rkvm::rel::{RelAxis, RelEvent};
use rkvm::writer::{key_state_events, raw_event, Enabled, FrameWrite, WriteStep, Writer};

fn key(key: Keyboard) -> Key {
    Key::Key(key)
}

fn keys(keyboards: &[Keyboard]) -> KeySet {
    KeySet::from_vec(keyboards.iter().copied().map(key).collect())
}

#[test]
fn raw_event_preserves_basic_event_order_data() {
    assert_eq!(
        raw_event(&Event::Rel(RelEvent {
            axis: RelAxis::X,
            value: 12,
        })),
        Some((EV_REL, REL_X, 12))
    );
    assert_eq!(
        raw_event(&Event::Key(KeyEvent {
            key: Key::Key(Keyboard::A),
            down: true,
        })),
        Some((EV_KEY, KEY_A, 1))
    );
    assert_eq!(
        raw_event(&Event::Sync(SyncEvent::All)),
        Some((EV_SYN, SYN_REPORT, 0))
    );
}

#[test]
fn key_state_delta_releases_plain_keys_before_modifiers() {
    let current = keys(&[Keyboard::LeftMeta, Keyboard::LeftShift, Keyboard::Grave]);

    let events = key_state_events(&current, &KeySet::new());

    assert_eq!(
        events
            .iter()
            .filter_map(|event| match event {
                Event::Key(event) => Some(*event),
                _ => None,
            })
            .collect::<Vec<_>>(),
        vec![
            KeyEvent {
                key: key(Keyboard::Grave),
                down: false,
            },
            KeyEvent {
                key: key(Keyboard::LeftShift),
                down: false,
            },
            KeyEvent {
                key: key(Keyboard::LeftMeta),
                down: false,
            },
        ]
    );
    assert!(matches!(events.last(), Some(Event::Sync(SyncEvent::All))));
}

#[test]
fn key_state_delta_presses_modifiers_before_plain_keys() {
    let desired = keys(&[Keyboard::A, Keyboard::LeftMeta, Keyboard::LeftShift]);

    let events = key_state_events(&KeySet::new(), &desired);

    assert_eq!(
        events
            .iter()
            .filter_map(|event| match event {
                Event::Key(event) => Some(*event),
                _ => None,
            })
            .collect::<Vec<_>>(),
        vec![
            KeyEvent {
                key: key(Keyboard::LeftShift),
                down: true,
            },
            KeyEvent {
                key: key(Keyboard::LeftMeta),
                down: true,
            },
            KeyEvent {
                key: key(Keyboard::A),
                down: true,
            },
        ]
    );
}

#[test]
fn equal_key_states_need_no_events() {
    let state = keys(&[Keyboard::LeftCtrl]);
    assert!(key_state_events(&state, &state).is_empty());
}

#[test]
fn raw_events_of_all_kinds() {
    assert_eq!(
        raw_event(&Event::Abs(AbsEvent::Axis {
            axis: AbsAxis::Y,
            value: -7,
        })),
        Some((EV_ABS, 1, -7))
    );
    assert_eq!(
        raw_event(&Event::Abs(AbsEvent::MtToolType {
            value: ToolType::Pen,
        })),
        Some((EV_ABS, ABS_MT_TOOL_TYPE, 1))
    );
    assert_eq!(
        raw_event(&Event::Key(KeyEvent {
            key: Key::Button(Button::Left),
            down: false,
        })),
        Some((EV_KEY, 0x110, 0))
    );
    assert_eq!(
        raw_event(&Event::Sync(SyncEvent::Mt)),
        Some((EV_SYN, SYN_MT_REPORT, 0))
    );
}

#[test]
fn a_state_change_reaches_the_state() {
    let mut writer = Writer::builder().build(Ok(())).unwrap();
    let first = keys(&[Keyboard::A, Keyboard::LeftCtrl]);
    let second = keys(&[Keyboard::B, Keyboard::LeftCtrl]);
    for state in [first, second, KeySet::new()] {
        let frame = writer.set_key_state(&state).unwrap();
        writer.finish_frame(&frame);
        assert_eq!(writer.pressed_keys(), &state);
        assert!(writer.set_key_state(&state).is_none());
    }
}

#[test]
fn single_events_change_the_key_state() {
    let mut writer = Writer::new();
    let event = Event::Key(KeyEvent {
        key: key(Keyboard::Q),
        down: true,
    });
    assert_eq!(writer.write(&event), Some((EV_KEY, 16, 1)));
    writer.update_key_state(&event);
    writer.update_key_state(&Event::Sync(SyncEvent::All));
    assert_eq!(writer.pressed_keys(), &keys(&[Keyboard::Q]));
}

#[test]
fn a_frame_is_written_event_by_event() {
    let writer = Writer::new();
    let events = [
        Event::Rel(RelEvent {
            axis: RelAxis::Y,
            value: 4,
        }),
        Event::Sync(SyncEvent::All),
    ];
    let mut write = writer.write_frame(&events);
    assert_eq!(write.next(), Some((EV_REL, 1, 4)));
    assert_eq!(write.advance(-libc::EAGAIN).unwrap(), WriteStep::Wait);
    assert_eq!(write.next(), Some((EV_REL, 1, 4)));
    let err = write.advance(-libc::ENODEV).unwrap_err();
    assert_eq!(err.os_code, Some(libc::ENODEV));
    assert_eq!(write.next(), Some((EV_REL, 1, 4)));
    assert_eq!(write.advance(0).unwrap(), WriteStep::Go);
    assert_eq!(write.next(), Some((EV_SYN, SYN_REPORT, 0)));
    assert_eq!(write.advance(0).unwrap(), WriteStep::Go);
    assert_eq!(write.next(), None);
}

#[test]
fn a_single_event_is_written() {
    let mut write = FrameWrite::single((EV_REL, 0, -1));
    assert_eq!(write.next(), Some((EV_REL, 0, -1)));
    assert_eq!(write.advance(0).unwrap(), WriteStep::Go);
    assert_eq!(write.next(), None);
}

#[test]
fn a_builder_lists_what_is_enabled_in_order() {
    let info = AbsInfo {
        min: -5,
        max: 9,
        fuzz: 1,
        flat: 2,
        resolution: 3,
    };
    let builder = Writer::builder()
        .name(b"mouse".to_vec())
        .vendor(1)
        .product(2)
        .version(3)
        .rel(&[RelAxis::X, RelAxis::Wheel])
        .abs(&[(AbsAxis::Z, info)])
        .key(&[Key::Button(Button::Left)])
        .delay(Some(250))
        .period(None);
    assert_eq!(builder.device_name(), &b"mouse".to_vec());
    assert_eq!(builder.ids(), (BUS_VIRTUAL, 1, 2, 3));
    assert_eq!(
        builder.enabled(),
        &vec![
            Enabled::Code {
                kind: EV_REL,
                code: 0
            },
            Enabled::Code {
                kind: EV_REL,
                code: 8
            },
            Enabled::Code {
                kind: EV_SYN,
                code: SYN_MT_REPORT
            },
            Enabled::Axis {
                code: 2,
                value: -5,
                minimum: -5,
                maximum: 9,
                fuzz: 1,
                flat: 2,
                resolution: 3
            },
            Enabled::Code {
                kind: EV_KEY,
                code: 0x110
            },
            Enabled::Repeat {
                code: REP_DELAY,
                value: 250
            },
        ]
    );
    let with_period = Writer::builder().period(Some(33));
    assert_eq!(
        with_period.enabled(),
        &vec![Enabled::Repeat {
            code: REP_PERIOD,
            value: 33
        }]
    );
}

#[test]
fn a_device_that_could_not_be_made_has_no_writer() {
    let writer = Writer::builder().build(Ok(())).unwrap();
    assert!(writer.pressed_keys().is_empty());
    let open = CreateError::Open(IoError::from_raw_os_error(libc::EACCES));
    let err = Writer::builder().build(Err(open)).unwrap_err();
    assert_eq!(err.os_code, Some(libc::EACCES));
    let create = CreateError::Create(IoError::new(ErrorKind::Other, "refused"));
    let err = Writer::builder().build(Err(create)).unwrap_err();
    assert_eq!((err.kind, err.os_code), (ErrorKind::Other, None));
    assert_eq!(err.message, "refused");
}
