use rkvm::claim::ClaimError;
use rkvm::entry::{Entry, EntryMap};
use rkvm::groups::{may_claim, next_due};
use rkvm::interceptor::{
    DeviceCapabilities, DeviceInfo, Interceptor, RawCapabilities, Repeat,
};
use rkvm::io_error::{ErrorKind, IoError};
use rkvm::monitor::{
    expire, handle_release, list_devices, next_deadline, ready_candidates, record_claim,
    refresh_inventory, request_removal, schedule_backoff, ActivatedDevice, Candidate,
    CandidateState, Reconcile, Release, ReleaseCause, RetryBackoff, Watches,
};
use rkvm::path::is_event_filename;
use rkvm::pathset::PathSet;
use rkvm::policy::Place;
use rkvm::scan::{AliasDirectory, Scan, ScanReply, ScanStep, Snapshot};
use std::time::Duration;

fn info(path: &str) -> DeviceInfo {
    DeviceInfo::new(
        path.as_bytes().to_vec(),
        b"/sys/devices/virtual/input/input0/event0".to_vec(),
        b"test device".to_vec(),
        0x0006,
        1,
        2,
        3,
        DeviceCapabilities {
            key: true,
            relative: false,
            absolute: false,
        },
    )
}

fn entry(inode: u64) -> Entry {
    Entry { device: 1, inode }
}

fn candidate(path: &str, state: CandidateState) -> Candidate {
    Candidate {
        info: info(path),
        aliases: PathSet::new(),
        state,
        backoff: RetryBackoff::new(),
    }
}

fn active(activation_id: u64) -> CandidateState {
    CandidateState::Active {
        activation_id,
        removal_sent: false,
    }
}

fn found(path: &str, eligible: bool) -> Snapshot {
    Snapshot::Candidate {
        info: info(path),
        aliases: PathSet::new(),
        eligible,
    }
}

fn state(candidates: &EntryMap<Candidate>, key: Entry) -> CandidateState {
    candidates.get(key).unwrap().state
}

#[test]
fn retry_backoff_follows_bounded_schedule() {
    let mut backoff = RetryBackoff::new();
    assert_eq!(Duration::from_millis(backoff.next()), Duration::from_millis(100));
    assert_eq!(Duration::from_millis(backoff.next()), Duration::from_millis(250));
    assert_eq!(Duration::from_millis(backoff.next()), Duration::from_millis(500));
    assert_eq!(Duration::from_millis(backoff.next()), Duration::from_secs(1));
    assert_eq!(Duration::from_millis(backoff.next()), Duration::from_secs(2));
    assert_eq!(Duration::from_millis(backoff.next()), Duration::from_secs(2));
    assert_eq!(Duration::from_millis(backoff.next()), Duration::from_secs(2));
    backoff.reset();
    assert_eq!(Duration::from_millis(backoff.next()), Duration::from_millis(100));
}

#[test]
fn stale_release_cannot_clear_current_activation() {
    let key = Entry {
        device: 1,
        inode: 2,
    };
    let mut candidates = EntryMap::new();
    candidates.insert(
        key,
        Candidate {
            info: info("/dev/input/event1"),
            aliases: PathSet::new(),
            state: CandidateState::Active {
                activation_id: 9,
                removal_sent: false,
            },
            backoff: RetryBackoff::new(),
        },
    );

    handle_release(
        &mut candidates,
        Release {
            activation_id: 8,
            cause: ReleaseCause::Disconnected,
        },
        1000,
    );
    assert!(matches!(
        candidates.get(key).unwrap().state,
        CandidateState::Active {
            activation_id: 9,
            ..
        }
    ));

    handle_release(
        &mut candidates,
        Release {
            activation_id: 9,
            cause: ReleaseCause::Failed,
        },
        1000,
    );
    assert!(matches!(
        candidates.get(key).unwrap().state,
        CandidateState::Blocked { .. }
    ));
}

#[test]
fn event_path_detection_does_not_accept_prefix_directories() {
    assert!(is_event_filename(b"/dev/input/event12"));
    assert!(!is_event_filename(b"/dev/input/by-id"));
    assert!(!is_event_filename(b"/dev/input/not-an-event"));
}

#[test]
fn a_failure_blocks_for_five_seconds() {
    let mut candidates = EntryMap::new();
    candidates.insert(entry(1), candidate("/dev/input/event1", active(4)));
    handle_release(
        &mut candidates,
        Release {
            activation_id: 4,
            cause: ReleaseCause::Failed,
        },
        1000,
    );
    assert_eq!(
        state(&candidates, entry(1)),
        CandidateState::Blocked { until: 6000 }
    );
    assert_eq!(next_deadline(&candidates), Some(6000));
    expire(&mut candidates, 5999);
    assert_eq!(
        state(&candidates, entry(1)),
        CandidateState::Blocked { until: 6000 }
    );
    expire(&mut candidates, 6000);
    assert_eq!(state(&candidates, entry(1)), CandidateState::Ready);
    assert_eq!(next_deadline(&candidates), None);
}

#[test]
fn a_disconnected_device_is_ready_again() {
    let mut candidates = EntryMap::new();
    let mut device = candidate("/dev/input/event1", active(4));
    device.backoff.next();
    candidates.insert(entry(1), device);
    handle_release(
        &mut candidates,
        Release {
            activation_id: 4,
            cause: ReleaseCause::Disconnected,
        },
        0,
    );
    assert_eq!(state(&candidates, entry(1)), CandidateState::Ready);
    assert_eq!(candidates.get(entry(1)).unwrap().backoff.failures, 0);
}

#[test]
fn a_search_brings_the_inventory_up_to_date() {
    let mut candidates = EntryMap::new();
    candidates.insert(entry(1), candidate("/dev/input/event1", active(1)));
    candidates.insert(entry(2), candidate("/dev/input/event2", active(2)));
    candidates.insert(entry(3), candidate("/dev/input/event3", CandidateState::Ready));
    candidates.insert(entry(4), candidate("/dev/input/event4", CandidateState::Ready));
    candidates.insert(entry(5), candidate("/dev/input/event5", active(5)));
    candidates.insert(entry(6), candidate("/dev/input/event6", CandidateState::Ready));

    let mut snapshots = EntryMap::new();
    snapshots.insert(entry(1), found("/dev/input/event11", true));
    snapshots.insert(entry(2), found("/dev/input/event2", false));
    snapshots.insert(entry(3), found("/dev/input/event3", false));
    snapshots.insert(
        entry(5),
        Snapshot::Owned {
            path: b"/dev/input/event5".to_vec(),
            aliases: PathSet::new(),
        },
    );
    snapshots.insert(
        entry(6),
        Snapshot::Owned {
            path: b"/dev/input/event6".to_vec(),
            aliases: PathSet::new(),
        },
    );
    snapshots.insert(entry(7), found("/dev/input/event7", true));
    snapshots.insert(entry(8), found("/dev/input/event8", false));
    snapshots.insert(
        entry(9),
        Snapshot::Owned {
            path: b"/dev/input/event9".to_vec(),
            aliases: PathSet::new(),
        },
    );

    assert_eq!(refresh_inventory(&mut candidates, snapshots), vec![2]);
    assert_eq!(state(&candidates, entry(1)), active(1));
    assert_eq!(
        candidates.get(entry(1)).unwrap().info.path(),
        &b"/dev/input/event11".to_vec()
    );
    assert_eq!(
        state(&candidates, entry(2)),
        CandidateState::Active {
            activation_id: 2,
            removal_sent: true
        }
    );
    assert_eq!(state(&candidates, entry(3)), CandidateState::Rejected);
    assert!(candidates.get(entry(4)).is_none());
    assert_eq!(state(&candidates, entry(5)), active(5));
    assert!(candidates.get(entry(6)).is_none());
    assert_eq!(state(&candidates, entry(7)), CandidateState::Ready);
    assert_eq!(state(&candidates, entry(8)), CandidateState::Rejected);
    assert!(candidates.get(entry(9)).is_none());

    let mut removed = refresh_inventory(&mut candidates, EntryMap::new());
    removed.sort();
    assert_eq!(removed, vec![1, 5]);
    assert!(refresh_inventory(&mut candidates, EntryMap::new()).is_empty());
}

#[test]
fn an_end_is_requested_once() {
    let mut device = candidate("/dev/input/event1", active(3));
    assert_eq!(request_removal(&mut device), Some(3));
    assert_eq!(request_removal(&mut device), None);
    let mut ready = candidate("/dev/input/event1", CandidateState::Ready);
    assert_eq!(request_removal(&mut ready), None);
    assert_eq!(ready.state, CandidateState::Ready);
}

#[test]
fn ready_candidates_come_in_the_order_of_their_paths() {
    let mut candidates = EntryMap::new();
    candidates.insert(entry(1), candidate("/dev/input/event3", CandidateState::Ready));
    candidates.insert(entry(2), candidate("/dev/input/event20", CandidateState::Ready));
    candidates.insert(entry(3), candidate("/dev/input/event1", CandidateState::Rejected));
    candidates.insert(entry(4), candidate("/dev/input/event1", CandidateState::Ready));
    assert_eq!(
        ready_candidates(&candidates),
        vec![entry(4), entry(2), entry(1)]
    );
}

#[test]
fn results_of_attempts_are_recorded() {
    let error = |code: i32| IoError::from_raw_os_error(code);
    let blocked = Some(CandidateState::Blocked { until: 5010 });
    let waiting = Some(CandidateState::Waiting { until: 110 });
    let cases = [
        (ClaimError::Gone(error(libc::ENOENT)), None),
        (ClaimError::Stale, None),
        (ClaimError::Owned, None),
        (ClaimError::NotApplicable, Some(CandidateState::Rejected)),
        (
            ClaimError::Unsupported(error(libc::EINVAL)),
            Some(CandidateState::Unsupported),
        ),
        (ClaimError::Busy, waiting),
        (ClaimError::Interrupted(error(libc::EINTR)), waiting),
        (ClaimError::Permission(error(libc::EACCES)), blocked),
        (ClaimError::Output(error(libc::ENOENT)), None),
        (ClaimError::Output(error(libc::ENODEV)), None),
        (ClaimError::Output(error(libc::EIO)), None),
        (ClaimError::Output(error(libc::EINTR)), waiting),
        (ClaimError::Output(error(libc::EBUSY)), blocked),
        (ClaimError::Other(error(libc::EBUSY)), blocked),
    ];
    for (error, expected) in cases {
        let mut candidates = EntryMap::new();
        candidates.insert(entry(1), candidate("/dev/input/event1", CandidateState::Ready));
        let mut next_id = 7;
        let result = record_claim(&mut candidates, entry(1), Err(error), &mut next_id, 10);
        assert!(matches!(result, Ok(None)));
        assert_eq!(
            candidates.get(entry(1)).map(|candidate| candidate.state),
            expected
        );
        assert_eq!(next_id, 7);
    }
}

#[test]
fn takeovers_are_numbered() {
    let mut candidates = EntryMap::new();
    candidates.insert(entry(1), candidate("/dev/input/event1", CandidateState::Ready));
    let mut next_id = 7;
    let result = record_claim(&mut candidates, entry(1), Ok(()), &mut next_id, 0);
    assert!(matches!(result, Ok(Some(7))));
    assert_eq!(next_id, 8);
    assert_eq!(state(&candidates, entry(1)), active(7));

    let mut last_id = u64::MAX;
    let err = record_claim(&mut candidates, entry(1), Ok(()), &mut last_id, 0).unwrap_err();
    assert_eq!(err.kind, ErrorKind::Other);
    assert_eq!(err.message, "Input activation ID exhausted");

    let fatal = ClaimError::Fatal(IoError::new(ErrorKind::Other, "no uinput"));
    let err = record_claim(&mut candidates, entry(1), Err(fatal), &mut next_id, 0).unwrap_err();
    assert_eq!(err.message, "no uinput");
}

#[test]
fn busy_candidates_wait_longer_and_longer() {
    let mut device = candidate("/dev/input/event1", CandidateState::Ready);
    for (now, until) in [(0, 100), (100, 350), (350, 850), (850, 1850), (1850, 3850), (3850, 5850)] {
        schedule_backoff(&mut device, now);
        assert_eq!(device.state, CandidateState::Waiting { until });
        assert_eq!(device.retry_at(), Some(until));
    }
}

#[test]
fn an_interrupted_attempt_is_made_once_more() {
    let mut candidates = EntryMap::new();
    candidates.insert(entry(1), candidate("/dev/input/event1", CandidateState::Ready));
    candidates.insert(entry(2), candidate("/dev/input/event2", CandidateState::Ready));
    let mut next_id = 1;
    let mut round = Reconcile::new(&candidates);
    let interrupted = || Err(ClaimError::Interrupted(IoError::from_raw_os_error(libc::EINTR)));

    assert_eq!(round.next(), Some(entry(1)));
    round
        .advance(&mut candidates, interrupted(), &mut next_id, 0)
        .unwrap();
    assert_eq!(round.next(), Some(entry(1)));
    assert_eq!(state(&candidates, entry(1)), CandidateState::Ready);
    round
        .advance(&mut candidates, interrupted(), &mut next_id, 0)
        .unwrap();
    assert_eq!(
        state(&candidates, entry(1)),
        CandidateState::Waiting { until: 100 }
    );
    assert_eq!(round.next(), Some(entry(2)));
    assert_eq!(
        round
            .advance(&mut candidates, Ok(()), &mut next_id, 0)
            .unwrap(),
        Some(1)
    );
    assert_eq!(round.next(), None);
}

#[test]
fn alias_directories_are_watched_while_they_are_there() {
    let mut watches = Watches::new();
    assert!(!watches.is_watched(AliasDirectory::ById));
    assert!(watches.add_if_present(AliasDirectory::ById, Ok(())).unwrap());
    assert!(!watches.add_if_present(AliasDirectory::ById, Ok(())).unwrap());
    assert!(!watches
        .add_if_present(
            AliasDirectory::ByPath,
            Err(IoError::from_raw_os_error(libc::ENOENT))
        )
        .unwrap());
    assert!(watches
        .add_if_present(
            AliasDirectory::ByPath,
            Err(IoError::from_raw_os_error(libc::EACCES))
        )
        .is_err());
    assert!(watches.is_watched(AliasDirectory::ById));
    assert!(!watches.is_watched(AliasDirectory::ByPath));
    watches.forget(b"event3");
    assert!(watches.is_watched(AliasDirectory::ById));
    watches.forget(b"by-id");
    assert!(!watches.is_watched(AliasDirectory::ById));
    assert_eq!(AliasDirectory::ById.path(), "/dev/input/by-id");
    assert_eq!(AliasDirectory::ByPath.path(), "/dev/input/by-path");
}

#[test]
fn listed_devices_come_in_the_order_of_their_paths() {
    let mut aliases = PathSet::new();
    aliases.insert(b"/dev/input/by-path/z".to_vec());
    aliases.insert(b"/dev/input/by-id/k".to_vec());
    aliases.insert(b"/dev/input//by-id/k".to_vec());
    let mut snapshots = EntryMap::new();
    snapshots.insert(
        entry(1),
        Snapshot::Candidate {
            info: info("/dev/input/event9"),
            aliases,
            eligible: false,
        },
    );
    snapshots.insert(entry(2), found("/dev/input/event12", true));
    snapshots.insert(
        entry(3),
        Snapshot::Owned {
            path: b"/dev/input/event1".to_vec(),
            aliases: PathSet::new(),
        },
    );
    let devices = list_devices(snapshots);
    assert_eq!(devices.len(), 2);
    assert_eq!(devices[0].info().path(), &b"/dev/input/event12".to_vec());
    assert!(devices[0].aliases().is_empty());
    assert_eq!(devices[1].info().path(), &b"/dev/input/event9".to_vec());
    assert_eq!(
        devices[1].aliases(),
        &[
            b"/dev/input/by-id/k".to_vec(),
            b"/dev/input/by-path/z".to_vec()
        ]
    );
}

#[test]
fn an_activation_hands_out_its_device() {
    let device = Interceptor::new(
        b"mouse".to_vec(),
        1,
        2,
        3,
        RawCapabilities {
            rel: vec![],
            abs: vec![],
            key: vec![],
            repeat: Repeat {
                delay: None,
                period: None,
            },
        },
    );
    let activated = ActivatedDevice::new(12, device);
    assert_eq!(activated.id(), 12);
    assert_eq!(activated.into_interceptor().name(), &b"mouse".to_vec());
}

#[test]
fn a_search_finds_devices_and_their_names() {
    let mut scan = Scan::new();
    let gone = || IoError::from_raw_os_error(libc::ENOENT);
    let interrupted = || IoError::from_raw_os_error(libc::EINTR);
    let path = |name: &str| format!("/dev/input/{name}").into_bytes();

    assert!(matches!(scan.step(), ScanStep::OpenNodes));
    scan.advance(ScanReply::Opened(Ok(()))).unwrap();
    scan.advance(ScanReply::Next(Err(interrupted()))).unwrap();
    scan.advance(ScanReply::Next(Ok(Some(path("mice"))))).unwrap();
    assert!(matches!(scan.step(), ScanStep::NextNode));

    scan.advance(ScanReply::Next(Ok(Some(path("event0"))))).unwrap();
    assert!(matches!(scan.step(), ScanStep::ResolveNode { .. }));
    scan.advance(ScanReply::Resolved(Ok(path("event0")))).unwrap();
    scan.advance(ScanReply::Identified(Ok(entry(1)))).unwrap();
    scan.advance(ScanReply::Owned(false)).unwrap();
    scan.advance(ScanReply::Inspected(Err(interrupted()))).unwrap();
    assert!(matches!(
        scan.step(),
        ScanStep::InspectNode { again: true, .. }
    ));
    scan.advance(ScanReply::Inspected(Ok((info("/dev/input/event0"), true))))
        .unwrap();

    scan.advance(ScanReply::Next(Ok(Some(path("event1"))))).unwrap();
    scan.advance(ScanReply::Resolved(Ok(path("event1")))).unwrap();
    scan.advance(ScanReply::Identified(Ok(entry(2)))).unwrap();
    scan.advance(ScanReply::Owned(true)).unwrap();

    scan.advance(ScanReply::Next(Ok(Some(path("event2"))))).unwrap();
    scan.advance(ScanReply::Resolved(Err(gone()))).unwrap();
    scan.advance(ScanReply::Next(Ok(Some(path("event3"))))).unwrap();
    scan.advance(ScanReply::Resolved(Ok(path("event3")))).unwrap();
    scan.advance(ScanReply::Identified(Err(gone()))).unwrap();
    scan.advance(ScanReply::Next(Ok(Some(path("event4"))))).unwrap();
    scan.advance(ScanReply::Resolved(Ok(path("event4")))).unwrap();
    scan.advance(ScanReply::Identified(Ok(entry(5)))).unwrap();
    scan.advance(ScanReply::Owned(false)).unwrap();
    scan.advance(ScanReply::Inspected(Err(IoError::from_raw_os_error(libc::EIO))))
        .unwrap();
    scan.advance(ScanReply::Next(Ok(None))).unwrap();

    assert!(matches!(
        scan.step(),
        ScanStep::OpenAliases {
            directory: AliasDirectory::ById
        }
    ));
    scan.advance(ScanReply::Opened(Ok(()))).unwrap();
    for (alias, target, node) in [
        ("by-id/one", "event0", Some(entry(1))),
        ("by-id/two", "event1", Some(entry(2))),
        ("by-id/none", "event9", Some(entry(9))),
        ("by-id/js", "js0", None),
    ] {
        scan.advance(ScanReply::Next(Ok(Some(path(alias))))).unwrap();
        scan.advance(ScanReply::Resolved(Ok(path(target)))).unwrap();
        if let Some(node) = node {
            scan.advance(ScanReply::Identified(Ok(node))).unwrap();
        }
    }
    scan.advance(ScanReply::Next(Ok(None))).unwrap();
    scan.advance(ScanReply::Opened(Err(gone()))).unwrap();
    assert!(matches!(scan.step(), ScanStep::Done));

    let snapshots = scan.into_snapshots();
    let mut entries = snapshots.entries();
    entries.sort_by_key(|entry| entry.inode);
    assert_eq!(entries, vec![entry(1), entry(2)]);
    match snapshots.get(entry(1)).unwrap() {
        Snapshot::Candidate {
            info,
            aliases,
            eligible,
        } => {
            assert_eq!(info.path(), &path("event0"));
            assert_eq!(aliases.as_slice(), &[path("by-id/one")]);
            assert!(eligible);
        }
        other => panic!("unexpected snapshot {:?}", other),
    }
    match snapshots.get(entry(2)).unwrap() {
        Snapshot::Owned {
            path: owned,
            aliases,
        } => {
            assert_eq!(owned, &path("event1"));
            assert_eq!(aliases.as_slice(), &[path("by-id/two")]);
        }
        other => panic!("unexpected snapshot {:?}", other),
    }
}

#[test]
fn a_search_fails_on_real_errors() {
    let denied = || IoError::from_raw_os_error(libc::EACCES);
    let mut scan = Scan::new();
    let err = scan.advance(ScanReply::Opened(Err(denied()))).unwrap_err();
    assert_eq!(err.os_code, Some(libc::EACCES));

    let mut scan = Scan::new();
    assert!(scan
        .advance(ScanReply::Opened(Err(IoError::from_raw_os_error(libc::ENOENT))))
        .is_err());

    let mut scan = Scan::new();
    scan.advance(ScanReply::Opened(Ok(()))).unwrap();
    assert!(scan.advance(ScanReply::Next(Err(denied()))).is_err());

    let mut scan = Scan::new();
    scan.advance(ScanReply::Opened(Ok(()))).unwrap();
    scan.advance(ScanReply::Next(Ok(None))).unwrap();
    assert!(scan.advance(ScanReply::Opened(Err(denied()))).is_err());
}

struct Tables {
    candidates: EntryMap<Candidate>,
    places: EntryMap<Place>,
    seen: EntryMap<u64>,
}

impl Tables {
    /// One candidate for each group, rank and state, found at once and without a delay.
    fn new(members: &[(usize, usize, CandidateState)]) -> Tables {
        let mut tables = Tables {
            candidates: EntryMap::new(),
            places: EntryMap::new(),
            seen: EntryMap::new(),
        };
        for (at, (group, rank, state)) in members.iter().enumerate() {
            let key = entry(at as u64);
            tables
                .candidates
                .insert(key, candidate(&format!("/dev/input/event{}", at), *state));
            tables.place(key, *group, *rank, 0, 0);
        }
        tables
    }

    fn place(&mut self, key: Entry, group: usize, rank: usize, delay: u64, seen: u64) {
        self.places.insert(key, Place { group, rank, delay });
        self.seen.insert(key, seen);
    }

    fn may_claim(&self, inode: u64, now: u64) -> bool {
        may_claim(&self.candidates, &self.places, &self.seen, entry(inode), now)
    }

    fn next_due(&self, now: u64) -> Option<u64> {
        next_due(&self.candidates, &self.places, &self.seen, now)
    }
}

#[test]
fn one_device_of_a_group_is_taken_over() {
    let mut tables = Tables::new(&[
        (0, 0, CandidateState::Ready),
        (0, 1, CandidateState::Ready),
        (1, 0, CandidateState::Ready),
    ]);
    assert!(tables.may_claim(0, 0));
    assert!(!tables.may_claim(1, 0));
    assert!(tables.may_claim(2, 0));
    assert!(!tables.may_claim(3, 0));
    tables.places.remove(entry(0));
    assert!(!tables.may_claim(0, 0));
    assert!(tables.may_claim(1, 0));
}

#[test]
fn an_active_fallback_is_not_replaced() {
    let tables = Tables::new(&[(0, 0, CandidateState::Ready), (0, 1, active(1))]);
    assert!(!tables.may_claim(0, 0));
    assert!(!tables.may_claim(1, 0));
}

#[test]
fn a_busy_preferred_device_suppresses_its_fallback() {
    let fallback = (0, 1, CandidateState::Ready);
    let busy = Tables::new(&[(0, 0, CandidateState::Waiting { until: 9 }), fallback]);
    assert!(!busy.may_claim(1, 0));
    for state in [
        CandidateState::Unsupported,
        CandidateState::Rejected,
        CandidateState::Blocked { until: 9 },
    ] {
        assert!(Tables::new(&[(0, 0, state), fallback]).may_claim(1, 0));
    }
}

#[test]
fn a_delayed_device_is_left_to_others_first() {
    let mut tables = Tables::new(&[(0, 0, CandidateState::Ready), (0, 1, CandidateState::Ready)]);
    tables.place(entry(0), 0, 0, 1000, 500);
    assert!(!tables.may_claim(0, 1499));
    assert!(tables.may_claim(0, 1500));
    assert!(!tables.may_claim(1, 600));
    assert_eq!(tables.next_due(1499), Some(1500));
    assert_eq!(tables.next_due(1500), None);
    tables.place(entry(1), 0, 1, 300, 500);
    assert_eq!(tables.next_due(600), Some(800));
    assert_eq!(tables.next_due(800), Some(1500));
    tables.place(entry(0), 0, 0, u64::MAX, 500);
    assert_eq!(tables.next_due(800), None);
    assert!(!tables.may_claim(0, u64::MAX));
}

#[test]
fn a_candidate_can_be_passed_over() {
    let mut candidates = EntryMap::new();
    candidates.insert(entry(1), candidate("/dev/input/event1", CandidateState::Ready));
    candidates.insert(entry(2), candidate("/dev/input/event2", CandidateState::Ready));
    let mut round = Reconcile::new(&candidates);
    round.skip();
    assert_eq!(round.next(), Some(entry(2)));
    round.skip();
    assert_eq!(round.next(), None);
    assert_eq!(state(&candidates, entry(1)), CandidateState::Ready);
}
