use rkvm::abs::{AbsAxis, AbsEvent, AbsInfo, ToolType};
use rkvm::claim::{Claim, ClaimError, ClaimReply, ClaimStep};
use rkvm::entry::Entry;
use rkvm::event::{Event, SyncEvent};
use rkvm::interceptor::{
    create_error_into_io, drain_sync_events, has_pending_event, input_error, read_retry,
    recovery_error, source_sysfs_path, translate, try_read_event, try_read_raw, CreateError,
    DeviceCapabilities, DeviceInfo, DeviceOrigin, Interceptor, NextEvent, RawCapabilities,
    RawDevice, RawRead, ReadRetry, ReadStep, Repeat, Translation, WriterSetup,
};
use rkvm::io_error::{ErrorKind, IoError};
use rkvm::key::{Button, Key, KeyEvent, Keyboard};
use rkvm::keyset::KeySet;
use rkvm::rel::{RelAxis, RelEvent};
use rkvm::writer::raw_event;

#[test]
fn sysfs_origin_detects_only_virtual_input_subtree() {
    assert_eq!(
        DeviceOrigin::from_sysfs_path(b"/sys/devices/virtual/input/input12/event7"),
        DeviceOrigin::Virtual
    );
    assert_eq!(
        DeviceOrigin::from_sysfs_path(b"/sys/devices/pci0000:00/usb1/1-1/input/input4/event3"),
        DeviceOrigin::Physical
    );
    assert_eq!(
        DeviceOrigin::from_sysfs_path(b"/sys/devices/virtual/misc/uinput"),
        DeviceOrigin::Physical
    );
}

#[test]
fn source_errors_have_retryable_dispositions() {
    assert!(matches!(
        ClaimError::source(IoError::from_raw_os_error(libc::ENOENT)),
        ClaimError::Gone(_)
    ));
    assert!(matches!(
        ClaimError::source(IoError::from_raw_os_error(libc::EINTR)),
        ClaimError::Interrupted(_)
    ));
    assert!(matches!(
        ClaimError::source(IoError::from_raw_os_error(libc::EBUSY)),
        ClaimError::Other(_)
    ));
    assert!(matches!(
        ClaimError::source(IoError::from_raw_os_error(libc::EACCES)),
        ClaimError::Permission(_)
    ));
    assert!(matches!(
        ClaimError::source(IoError::from_raw_os_error(libc::ENOTTY)),
        ClaimError::Unsupported(_)
    ));
}

#[test]
fn origins_go_by_whole_components() {
    assert_eq!(
        DeviceOrigin::from_sysfs_path(b"/sys/devices/virtual/input-other/x"),
        DeviceOrigin::Physical
    );
    assert_eq!(
        DeviceOrigin::from_sysfs_path(b"//sys/./devices/virtual//input/"),
        DeviceOrigin::Virtual
    );
    assert_eq!(
        DeviceOrigin::from_sysfs_path(b"sys/devices/virtual/input"),
        DeviceOrigin::Physical
    );
    assert_eq!(DeviceOrigin::from_sysfs_path(b""), DeviceOrigin::Physical);
}

#[test]
fn the_kernel_describes_a_device() {
    let info = DeviceInfo::from_evdev(
        b"/dev/input/event3".to_vec(),
        b"/sys/devices/virtual/input/input3/event3".to_vec(),
        RawDevice {
            name: b"pad".to_vec(),
            bustype: 3,
            vendor: 0x1_046d,
            product: -1,
            version: 0x111,
            has_key: 1,
            has_rel: 0,
            has_abs: 2,
        },
    );
    assert_eq!(info.path(), &b"/dev/input/event3".to_vec());
    assert_eq!(
        info.sysfs_path(),
        &b"/sys/devices/virtual/input/input3/event3".to_vec()
    );
    assert_eq!(info.origin(), DeviceOrigin::Virtual);
    assert_eq!(info.name(), &b"pad".to_vec());
    assert_eq!(info.bustype(), 3);
    assert_eq!(info.vendor(), 0x046d);
    assert_eq!(info.product(), 0xffff);
    assert_eq!(info.version(), 0x111);
    assert_eq!(
        info.capabilities(),
        DeviceCapabilities {
            key: true,
            relative: false,
            absolute: false,
        }
    );
    assert_eq!(info.clone().path(), info.path());
}

#[test]
fn device_numbers_are_split_as_libc_does() {
    for device in [0u64, 0x0d41, 0x1234_5678_9abc_def0, u64::MAX, 3328 + 65] {
        assert_eq!(
            source_sysfs_path(device),
            format!(
                "/sys/dev/char/{}:{}/device",
                libc::major(device),
                libc::minor(device)
            )
        );
    }
    assert_eq!(source_sysfs_path(0x0d41), "/sys/dev/char/13:65/device");
}

#[test]
fn a_device_that_is_gone_is_a_broken_pipe() {
    let gone = input_error(-libc::ENODEV);
    assert_eq!(gone.kind, ErrorKind::BrokenPipe);
    assert_eq!(gone.os_code, None);
    assert_eq!(gone.message, "Device disconnected");
    let other = input_error(-libc::EIO);
    assert_eq!(other.os_code, Some(libc::EIO));
    let failed = recovery_error(other);
    assert_eq!(failed.kind, ErrorKind::BrokenPipe);
    assert_eq!(
        failed.message,
        format!(
            "Input recovery failed: {}",
            std::io::Error::from_raw_os_error(libc::EIO)
        )
    );
}

#[test]
fn raw_events_are_translated() {
    assert_eq!(
        translate((2, 8, -1)),
        Translation::Event(Event::Rel(RelEvent {
            axis: RelAxis::Wheel,
            value: -1,
        }))
    );
    assert_eq!(translate((2, 0x30, 1)), Translation::Echo);
    assert_eq!(
        translate((3, 0, 5)),
        Translation::Event(Event::Abs(AbsEvent::Axis {
            axis: AbsAxis::X,
            value: 5,
        }))
    );
    assert_eq!(
        translate((3, 0x37, 0)),
        Translation::Event(Event::Abs(AbsEvent::MtToolType {
            value: ToolType::Finger,
        }))
    );
    assert_eq!(translate((3, 0x37, 99)), Translation::Echo);
    assert_eq!(translate((3, 0x3f, 1)), Translation::Echo);
    assert_eq!(
        translate((1, 30, 1)),
        Translation::Event(Event::Key(KeyEvent {
            key: Key::Key(Keyboard::A),
            down: true,
        }))
    );
    assert_eq!(translate((1, 30, 2)), Translation::Skip);
    assert_eq!(translate((1, 30, 3)), Translation::Echo);
    assert_eq!(translate((1, 0x2ff, 1)), Translation::Echo);
    assert_eq!(
        translate((0, 0, 0)),
        Translation::Event(Event::Sync(SyncEvent::All))
    );
    assert_eq!(
        translate((0, 2, 0)),
        Translation::Event(Event::Sync(SyncEvent::Mt))
    );
    assert_eq!(translate((0, 3, 0)), Translation::Lost);
    assert_eq!(translate((0, 1, 0)), Translation::Skip);
    assert_eq!(translate((4, 4, 458756)), Translation::Echo);
}

#[test]
fn written_events_are_read_back() {
    for event in [
        Event::Rel(RelEvent {
            axis: RelAxis::HWheel,
            value: 2,
        }),
        Event::Abs(AbsEvent::Axis {
            axis: AbsAxis::MtSlot,
            value: 1,
        }),
        Event::Abs(AbsEvent::MtToolType {
            value: ToolType::Dial,
        }),
        Event::Key(KeyEvent {
            key: Key::Button(Button::Right),
            down: false,
        }),
        Event::Sync(SyncEvent::Mt),
    ] {
        assert_eq!(
            translate(raw_event(&event).unwrap()),
            Translation::Event(event)
        );
    }
}

fn interceptor() -> Interceptor {
    Interceptor::new(
        b"keyboard".to_vec(),
        1,
        2,
        3,
        RawCapabilities {
            rel: vec![0, 0x30, 8],
            abs: vec![
                (
                    0,
                    AbsInfo {
                        min: 0,
                        max: 10,
                        fuzz: 0,
                        flat: 0,
                        resolution: 1,
                    },
                ),
                (
                    0x3f,
                    AbsInfo {
                        min: 0,
                        max: 1,
                        fuzz: 0,
                        flat: 0,
                        resolution: 0,
                    },
                ),
            ],
            key: vec![30, 0x2ff, 48],
            repeat: Repeat {
                delay: Some(250),
                period: None,
            },
        },
    )
}

#[test]
fn capabilities_are_those_that_have_names() {
    let device = interceptor();
    assert_eq!(device.name(), &b"keyboard".to_vec());
    assert_eq!(
        (device.vendor(), device.product(), device.version()),
        (1, 2, 3)
    );
    assert_eq!(device.rel(), vec![RelAxis::X, RelAxis::Wheel]);
    let abs = device.abs();
    assert_eq!(abs.len(), 1);
    assert_eq!(abs[0].0, AbsAxis::X);
    assert_eq!(abs[0].1.max, 10);
    assert_eq!(
        device.key(),
        vec![Key::Key(Keyboard::A), Key::Key(Keyboard::B)]
    );
    assert_eq!(device.key_codes(), &vec![30, 0x2ff, 48]);
    assert_eq!(
        device.pressed_keys(&[0, 1, 1]),
        KeySet::from_vec(vec![Key::Key(Keyboard::B)])
    );
    assert_eq!(
        device.repeat(),
        Repeat {
            delay: Some(250),
            period: None
        }
    );
}

#[test]
fn a_frame_is_read_to_its_end() {
    let mut device = interceptor();
    assert!(matches!(device.read_step(), Ok(ReadStep::Read)));
    assert!(!device.accept(RawRead::Event((1, 30, 1))));
    assert!(device.read_frame().is_none());
    assert!(!device.accept(RawRead::Event((1, 30, 2))));
    assert!(!device.accept(RawRead::Event((4, 4, 30))));
    assert!(matches!(
        device.read_step(),
        Ok(ReadStep::Write((4, 4, 30)))
    ));
    device.finish_write();
    assert!(!device.accept(RawRead::Event((0, 0, 0))));
    assert!(matches!(device.read_step(), Ok(ReadStep::Frame)));
    assert_eq!(
        device.read_frame().unwrap(),
        vec![
            Event::Key(KeyEvent {
                key: Key::Key(Keyboard::A),
                down: true,
            }),
            Event::Sync(SyncEvent::All),
        ]
    );
    assert!(matches!(device.read_step(), Ok(ReadStep::Read)));
}

#[test]
fn lost_events_drop_what_was_read() {
    for lost in [RawRead::InputLost, RawRead::Event((0, 3, 0))] {
        let mut device = interceptor();
        device.accept(RawRead::Event((1, 30, 1)));
        assert!(device.accept(lost));
        device.accept(RawRead::Event((0, 0, 0)));
        assert_eq!(
            device.read_frame().unwrap(),
            vec![Event::Sync(SyncEvent::All)]
        );
    }
}

#[test]
fn without_a_virtual_device_nothing_is_written() {
    let mut device = interceptor();
    assert!(device.writer_mut().is_ok());
    assert!(device.write_frame(&[]).is_ok());
    device.accept(RawRead::Event((4, 4, 30)));
    device.drop_writer();
    assert!(device.writer_mut().is_err());
    let err = device.read_step().unwrap_err();
    assert_eq!(err.kind, ErrorKind::BrokenPipe);
    assert_eq!(err.message, "Local writer unavailable");
    assert!(device.write(&Event::Sync(SyncEvent::All)).is_err());
    assert!(device.write_frame(&[]).is_err());
    assert!(device.set_key_state(&KeySet::new()).is_err());
}

#[test]
fn a_virtual_device_is_made_anew() {
    let mut device = interceptor();
    let held = KeySet::from_vec(vec![Key::Key(Keyboard::A)]);
    let frame = device.set_key_state(&held).unwrap().unwrap();
    device.writer_mut().unwrap().finish_frame(&frame);
    assert!(device.set_key_state(&held).unwrap().is_none());
    device.reset_writer(WriterSetup::Ready).unwrap();
    assert!(device.set_key_state(&held).unwrap().is_some());

    let cases = [
        (WriterSetup::NoPath, ErrorKind::Other, "No syspath for writer"),
        (
            WriterSetup::AlreadyRegistered,
            ErrorKind::Other,
            "Writer already registered",
        ),
        (
            WriterSetup::NoMetadata(IoError::new(ErrorKind::NotFound, "meta")),
            ErrorKind::NotFound,
            "meta",
        ),
        (
            WriterSetup::CreateFailed(CreateError::Create(IoError::new(
                ErrorKind::PermissionDenied,
                "create",
            ))),
            ErrorKind::PermissionDenied,
            "create",
        ),
    ];
    for (setup, kind, message) in cases {
        let err = device.reset_writer(setup).unwrap_err();
        assert_eq!((err.kind, err.message.as_str()), (kind, message));
        assert!(device.writer_mut().is_err());
    }
    let err = create_error_into_io(CreateError::Open(IoError::new(ErrorKind::Other, "open")));
    assert_eq!(err.message, "open");
}

#[test]
fn raw_reads_are_judged_by_their_return_value() {
    assert!(has_pending_event(1).unwrap());
    assert!(!has_pending_event(0).unwrap());
    assert_eq!(
        has_pending_event(-libc::EIO).unwrap_err().os_code,
        Some(libc::EIO)
    );
    assert!(matches!(
        try_read_event(0, (1, 2, 3)),
        Ok(NextEvent::Success((1, 2, 3)))
    ));
    assert!(matches!(try_read_event(1, (0, 0, 0)), Ok(NextEvent::Sync)));
    let err = try_read_event(2, (0, 0, 0)).unwrap_err();
    assert_eq!(err.kind, ErrorKind::InvalidData);
    assert_eq!(err.message, "Invalid libevdev read status");
    assert_eq!(
        try_read_event(-libc::ENODEV, (0, 0, 0)).unwrap_err().kind,
        ErrorKind::BrokenPipe
    );
    assert!(matches!(
        try_read_raw(NextEvent::Success((1, 2, 3))),
        RawRead::Event((1, 2, 3))
    ));
    assert!(matches!(try_read_raw(NextEvent::Sync), RawRead::InputLost));
}

#[test]
fn failed_reads_are_tried_again_where_that_helps() {
    assert_eq!(
        read_retry(&IoError::from_raw_os_error(libc::EAGAIN)),
        ReadRetry::Wait
    );
    assert_eq!(
        read_retry(&IoError::from_raw_os_error(libc::EINTR)),
        ReadRetry::Again
    );
    assert_eq!(
        read_retry(&IoError::from_raw_os_error(libc::EIO)),
        ReadRetry::Fail
    );
    assert!(drain_sync_events(Ok(NextEvent::Sync)).is_none());
    assert!(matches!(
        drain_sync_events(Err(IoError::from_raw_os_error(libc::EAGAIN))),
        Some(Ok(()))
    ));
    let err = drain_sync_events(Err(IoError::new(ErrorKind::Other, "bad")))
        .unwrap()
        .unwrap_err();
    assert_eq!(err.message, "Input recovery failed: bad");
}

const NODE: Entry = Entry {
    device: 5,
    inode: 6,
};

fn claim_until(step: ClaimStep) -> Claim {
    let mut claim = Claim::new(NODE);
    while claim.step() != step {
        let reply = match claim.step() {
            ClaimStep::CheckOwned => ClaimReply::Owned(false),
            ClaimStep::Open => ClaimReply::Opened(Ok(NODE)),
            ClaimStep::Inspect => ClaimReply::Inspected(Ok(true)),
            ClaimStep::Register => ClaimReply::Registered(true),
            ClaimStep::CheckSwitches => ClaimReply::Switches(0),
            ClaimStep::ReadAxis { .. } => ClaimReply::Axis(None),
            ClaimStep::DisableAxis { .. } => ClaimReply::Disabled(0),
            ClaimStep::Grab => ClaimReply::Grabbed(0),
            ClaimStep::MakeWriter => ClaimReply::WriterMade(Ok(())),
            ClaimStep::FindWriter => ClaimReply::WriterFound(true),
            ClaimStep::IdentifyWriter => ClaimReply::WriterIdentified(Ok(())),
            ClaimStep::RegisterWriter => ClaimReply::WriterRegistered(true),
            ClaimStep::Done => panic!("the step does not come"),
        };
        claim.advance(reply).unwrap();
    }
    claim
}

#[test]
fn a_device_is_taken_over_step_by_step() {
    let mut claim = claim_until(ClaimStep::ReadAxis { axis: 0 });
    assert_eq!(
        claim.advance(ClaimReply::Axis(Some((0, 0)))).unwrap(),
        ClaimStep::ReadAxis { axis: 1 }
    );
    assert_eq!(
        claim.advance(ClaimReply::Axis(Some((5, 3)))).unwrap(),
        ClaimStep::DisableAxis { axis: 1 }
    );
    assert_eq!(
        claim.advance(ClaimReply::Disabled(0)).unwrap(),
        ClaimStep::ReadAxis { axis: 2 }
    );
    let mut last = claim_until(ClaimStep::ReadAxis { axis: 63 });
    assert_eq!(
        last.advance(ClaimReply::Axis(Some((0, 255)))).unwrap(),
        ClaimStep::Grab
    );
    assert_eq!(claim_until(ClaimStep::Done).step(), ClaimStep::Done);
}

#[test]
fn every_step_of_a_takeover_can_fail() {
    let other = Entry {
        device: 5,
        inode: 7,
    };
    let gone = || IoError::from_raw_os_error(libc::ENODEV);
    let fails = |step: ClaimStep, reply: ClaimReply| claim_until(step).advance(reply).unwrap_err();

    assert!(matches!(
        fails(ClaimStep::CheckOwned, ClaimReply::Owned(true)),
        ClaimError::Owned
    ));
    assert!(matches!(
        fails(ClaimStep::Open, ClaimReply::Opened(Ok(other))),
        ClaimError::Stale
    ));
    assert!(matches!(
        fails(ClaimStep::Open, ClaimReply::Opened(Err(gone()))),
        ClaimError::Gone(_)
    ));
    assert!(matches!(
        fails(ClaimStep::Inspect, ClaimReply::Inspected(Ok(false))),
        ClaimError::NotApplicable
    ));
    assert!(matches!(
        fails(ClaimStep::Inspect, ClaimReply::Inspected(Err(gone()))),
        ClaimError::Gone(_)
    ));
    assert!(matches!(
        fails(ClaimStep::Register, ClaimReply::Registered(false)),
        ClaimError::Owned
    ));
    let switches = fails(ClaimStep::CheckSwitches, ClaimReply::Switches(1));
    assert_eq!(
        switches.message(),
        "candidate is unsupported: switch devices cannot be reproduced safely"
    );
    assert!(matches!(
        fails(ClaimStep::Grab, ClaimReply::Grabbed(-libc::EBUSY)),
        ClaimError::Busy
    ));
    assert!(matches!(
        fails(ClaimStep::Grab, ClaimReply::Grabbed(-libc::EINVAL)),
        ClaimError::Unsupported(_)
    ));
    assert!(matches!(
        fails(
            ClaimStep::MakeWriter,
            ClaimReply::WriterMade(Err(CreateError::Open(gone())))
        ),
        ClaimError::Fatal(_)
    ));
    assert!(matches!(
        fails(
            ClaimStep::MakeWriter,
            ClaimReply::WriterMade(Err(CreateError::Create(gone())))
        ),
        ClaimError::Output(_)
    ));
    assert_eq!(
        fails(ClaimStep::FindWriter, ClaimReply::WriterFound(false)).message(),
        "input infrastructure failed: No devnode for writer"
    );
    assert!(matches!(
        fails(
            ClaimStep::IdentifyWriter,
            ClaimReply::WriterIdentified(Err(gone()))
        ),
        ClaimError::Fatal(_)
    ));
    assert_eq!(
        fails(
            ClaimStep::RegisterWriter,
            ClaimReply::WriterRegistered(false)
        )
        .message(),
        "input infrastructure failed: Writer already registered"
    );
    let mut disabling = claim_until(ClaimStep::ReadAxis { axis: 0 });
    disabling.advance(ClaimReply::Axis(Some((1, -1)))).unwrap();
    assert!(matches!(
        disabling.advance(ClaimReply::Disabled(-libc::EPERM)),
        Err(ClaimError::Permission(_))
    ));
}

#[test]
fn takeover_errors_have_texts() {
    let cause = || IoError::new(ErrorKind::Other, "cause");
    let texts = [
        (ClaimError::Owned, "candidate is already owned by rkvm"),
        (ClaimError::Stale, "candidate node instance changed"),
        (ClaimError::NotApplicable, "candidate no longer matches policy"),
        (ClaimError::Busy, "candidate is busy"),
        (ClaimError::Gone(cause()), "candidate disappeared: cause"),
        (
            ClaimError::Interrupted(cause()),
            "candidate operation was interrupted: cause",
        ),
        (
            ClaimError::Permission(cause()),
            "candidate access is blocked: cause",
        ),
        (
            ClaimError::Unsupported(cause()),
            "candidate is unsupported: cause",
        ),
        (
            ClaimError::Output(cause()),
            "failed to create candidate output: cause",
        ),
        (
            ClaimError::Fatal(cause()),
            "input infrastructure failed: cause",
        ),
        (
            ClaimError::Other(cause()),
            "candidate operation failed: cause",
        ),
    ];
    for (error, text) in texts {
        assert_eq!(error.message(), text);
    }
}
