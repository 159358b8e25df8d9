use rkvm::claim::ClaimError;
use rkvm::config::{DeviceGroup, DeviceMatch, GroupCandidate};
use rkvm::entry::{Entry, EntryMap};
use rkvm::interceptor::{DeviceCapabilities, DeviceInfo};
use rkvm::inventory::{Inventory, MonitorInput, MonitorStep};
use rkvm::io_error::{ErrorKind, IoError};
use rkvm::monitor::{CandidateState, Release, ReleaseCause, Watches};
use rkvm::pathset::PathSet;
use rkvm::scan::Snapshot;

const PREFERRED: u64 = 1;
const FALLBACK: u64 = 2;

fn entry(inode: u64) -> Entry {
    Entry { device: 1, inode }
}

fn path(inode: u64) -> Vec<u8> {
    format!("/dev/input/event{}", inode).into_bytes()
}

fn rule(vendor: Option<u16>, path: Option<&str>) -> DeviceMatch {
    DeviceMatch {
        path: path.map(|path| path.as_bytes().to_vec()),
        name: None,
        vendor,
        product: None,
        version: None,
        origin: None,
        bustype: None,
    }
}

/// A group of two, of which the second is left to others for a second.
fn groups() -> Vec<DeviceGroup> {
    vec![DeviceGroup {
        name: "pad".to_owned(),
        candidates: vec![
            GroupCandidate {
                matcher: rule(Some(1), None),
                grab_delay_ms: None,
            },
            GroupCandidate {
                matcher: rule(Some(2), None),
                grab_delay_ms: Some(1000),
            },
        ],
    }]
}

/// Devices whose vendor is the number of their node.
fn snapshots(inodes: &[u64]) -> EntryMap<Snapshot> {
    let mut found = EntryMap::new();
    for inode in inodes {
        let info = DeviceInfo::new(
            path(*inode),
            b"/sys/devices/pci/input3".to_vec(),
            b"pad".to_vec(),
            3,
            *inode as u16,
            2,
            3,
            DeviceCapabilities {
                key: true,
                relative: false,
                absolute: false,
            },
        );
        found.insert(
            entry(*inode),
            Snapshot::Candidate {
                info,
                aliases: PathSet::new(),
                eligible: true,
            },
        );
    }
    found
}

fn search(inventory: &mut Inventory, inodes: &[u64], now: u64) -> Vec<u64> {
    inventory.refresh(snapshots(inodes), &groups(), &[vec![None, None]], now)
}

fn next(inventory: &Inventory, now: u64) -> Option<Entry> {
    inventory.next(&mut inventory.round(), now)
}

fn take_over(inventory: &mut Inventory, now: u64) -> Option<u64> {
    let mut round = inventory.round();
    inventory.next(&mut round, now).unwrap();
    inventory.advance(&mut round, Ok(()), now).unwrap()
}

fn fail(inventory: &mut Inventory, error: ClaimError, now: u64) {
    let mut round = inventory.round();
    inventory.next(&mut round, now).unwrap();
    assert_eq!(inventory.advance(&mut round, Err(error), now).unwrap(), None);
}

fn state(inventory: &Inventory, inode: u64) -> CandidateState {
    inventory.get(entry(inode)).unwrap().state
}

fn active(activation_id: u64) -> CandidateState {
    CandidateState::Active {
        activation_id,
        removal_sent: false,
    }
}

fn io_error() -> IoError {
    IoError::new(ErrorKind::Other, "failure")
}

#[test]
fn a_fallback_waits_and_then_stays() {
    let mut inventory = Inventory::new(true);
    assert_eq!(inventory.deadline(0), None);
    search(&mut inventory, &[FALLBACK], 500);
    assert_eq!(next(&inventory, 1499), None);
    assert_eq!(inventory.deadline(1499), Some(1500));
    assert_eq!(next(&inventory, 1500), Some(entry(FALLBACK)));
    assert_eq!(inventory.deadline(1500), None);
    assert_eq!(take_over(&mut inventory, 1500), Some(1));

    assert!(search(&mut inventory, &[PREFERRED, FALLBACK], 2000).is_empty());
    assert_eq!(state(&inventory, FALLBACK), active(1));
    assert_eq!(state(&inventory, PREFERRED), CandidateState::Ready);
    assert!(!inventory.admits(entry(PREFERRED), 9000));
    assert_eq!(next(&inventory, 9000), None);

    assert_eq!(search(&mut inventory, &[PREFERRED], 3000), [1]);
    assert!(search(&mut inventory, &[PREFERRED], 3001).is_empty());
    assert_eq!(next(&inventory, 9000), None);
    inventory.release(
        Release {
            activation_id: 1,
            cause: ReleaseCause::Disconnected,
        },
        3500,
    );
    assert_eq!(next(&inventory, 3500), Some(entry(PREFERRED)));
    search(&mut inventory, &[PREFERRED], 3500);
    assert!(inventory.get(entry(FALLBACK)).is_none());
    assert_eq!(take_over(&mut inventory, 3500), Some(2));
    assert_eq!(state(&inventory, PREFERRED), active(2));

    search(&mut inventory, &[PREFERRED, FALLBACK], 4000);
    assert_eq!(inventory.deadline(4000), Some(5000));
    assert_eq!(next(&inventory, 5000), None);
}

#[test]
fn a_busy_device_suppresses_the_one_behind_it() {
    let mut inventory = Inventory::new(true);
    search(&mut inventory, &[PREFERRED, FALLBACK], 0);
    assert_eq!(next(&inventory, 1000), Some(entry(PREFERRED)));
    fail(&mut inventory, ClaimError::Busy, 1000);
    assert_eq!(state(&inventory, PREFERRED), CandidateState::Waiting { until: 1100 });
    assert_eq!(next(&inventory, 1001), None);
    assert_eq!(inventory.deadline(1001), Some(1100));
    inventory.expire(1100);
    assert_eq!(next(&inventory, 1100), Some(entry(PREFERRED)));
    fail(&mut inventory, ClaimError::Unsupported(io_error()), 1100);
    assert_eq!(next(&inventory, 1100), Some(entry(FALLBACK)));
}

#[test]
fn a_device_that_comes_back_waits_anew() {
    let mut inventory = Inventory::new(true);
    search(&mut inventory, &[FALLBACK], 0);
    fail(&mut inventory, ClaimError::Gone(io_error()), 1000);
    assert!(inventory.get(entry(FALLBACK)).is_none());
    search(&mut inventory, &[FALLBACK], 1200);
    assert_eq!(next(&inventory, 2199), None);
    assert_eq!(inventory.deadline(1200), Some(2200));
    assert_eq!(next(&inventory, 2200), Some(entry(FALLBACK)));
}

#[test]
fn a_taken_device_keeps_its_place() {
    let groups = [DeviceGroup {
        name: "pad".to_owned(),
        candidates: vec![GroupCandidate {
            matcher: rule(None, Some("/dev/input/by-id/pad")),
            grab_delay_ms: None,
        }],
    }];
    let mut inventory = Inventory::new(true);
    inventory.refresh(snapshots(&[1, 2]), &groups, &[vec![Some(path(1))]], 0);
    assert!(inventory.admits(entry(1), 0));
    assert!(!inventory.admits(entry(2), 0));
    assert_eq!(take_over(&mut inventory, 0), Some(1));
    inventory.refresh(snapshots(&[1, 2]), &groups, &[vec![Some(path(2))]], 1);
    assert!(!inventory.admits(entry(2), 1));
    inventory.release(
        Release {
            activation_id: 1,
            cause: ReleaseCause::Disconnected,
        },
        2,
    );
    inventory.refresh(snapshots(&[1, 2]), &groups, &[vec![Some(path(2))]], 2);
    assert!(!inventory.admits(entry(1), 2));
    assert!(inventory.admits(entry(2), 2));
}

#[test]
fn without_groups_all_ready_devices_are_taken_over() {
    let mut inventory = Inventory::new(false);
    search(&mut inventory, &[1, 2, 7], 0);
    assert_eq!(inventory.deadline(0), None);
    let mut round = inventory.round();
    for (at, inode) in [1, 2, 7].into_iter().enumerate() {
        assert_eq!(inventory.next(&mut round, 0), Some(entry(inode)));
        let activation = inventory.advance(&mut round, Ok(()), 0).unwrap();
        assert_eq!(activation, Some(at as u64 + 1));
    }
    assert_eq!(inventory.next(&mut round, 0), None);
}

#[test]
fn with_groups_other_devices_are_left_alone() {
    let mut inventory = Inventory::new(true);
    search(&mut inventory, &[7], 0);
    assert_eq!(state(&inventory, 7), CandidateState::Ready);
    assert_eq!(next(&inventory, 9000), None);
}

#[test]
fn an_interrupted_takeover_is_tried_once_more() {
    let mut inventory = Inventory::new(true);
    search(&mut inventory, &[PREFERRED], 0);
    let mut round = inventory.round();
    assert_eq!(inventory.next(&mut round, 0), Some(entry(PREFERRED)));
    inventory
        .advance(&mut round, Err(ClaimError::Interrupted(io_error())), 0)
        .unwrap();
    assert_eq!(inventory.next(&mut round, 0), Some(entry(PREFERRED)));
    inventory
        .advance(&mut round, Err(ClaimError::Interrupted(io_error())), 0)
        .unwrap();
    assert_eq!(inventory.next(&mut round, 0), None);
    assert_eq!(state(&inventory, PREFERRED), CandidateState::Waiting { until: 100 });
}

#[test]
fn a_fatal_error_ends_a_round() {
    let mut inventory = Inventory::new(true);
    search(&mut inventory, &[PREFERRED], 0);
    let mut round = inventory.round();
    inventory.next(&mut round, 0).unwrap();
    let err = inventory
        .advance(&mut round, Err(ClaimError::Fatal(io_error())), 0)
        .unwrap_err();
    assert_eq!(err.message, "failure");
    assert_eq!(state(&inventory, PREFERRED), CandidateState::Ready);
}

#[test]
fn a_monitor_searches_after_changes() {
    let mut inventory = Inventory::new(true);
    let mut watches = Watches {
        by_id: true,
        by_path: true,
    };
    search(&mut inventory, &[PREFERRED], 0);
    assert_eq!(take_over(&mut inventory, 0), Some(1));
    let mut step = |input: MonitorInput, watches: &mut Watches, now: u64| {
        inventory.on_input(watches, input, now).unwrap()
    };

    let changed = MonitorInput::Changed { left: None };
    assert_eq!(step(changed, &mut watches, 1), MonitorStep::WatchAndSearch);
    assert!(watches.by_id && watches.by_path);
    let changed = MonitorInput::Changed {
        left: Some(b"by-id".to_vec()),
    };
    assert_eq!(step(changed, &mut watches, 1), MonitorStep::WatchAndSearch);
    assert!(!watches.by_id && watches.by_path);

    assert_eq!(step(MonitorInput::Tick, &mut watches, 1), MonitorStep::Search);
    let released = MonitorInput::Released(Some(Release {
        activation_id: 1,
        cause: ReleaseCause::Failed,
    }));
    assert_eq!(step(released, &mut watches, 2), MonitorStep::Search);
    assert_eq!(step(MonitorInput::Deadline, &mut watches, 5001), MonitorStep::Reconcile);
    assert_eq!(step(MonitorInput::Released(None), &mut watches, 5001), MonitorStep::Stop);
    assert_eq!(step(MonitorInput::Closed, &mut watches, 5001), MonitorStep::Stop);
    assert_eq!(
        state(&inventory, PREFERRED),
        CandidateState::Blocked { until: 5002 }
    );
    inventory
        .on_input(&mut watches, MonitorInput::Deadline, 5002)
        .unwrap();
    assert_eq!(state(&inventory, PREFERRED), CandidateState::Ready);
    let err = inventory
        .on_input(&mut watches, MonitorInput::Unwatched, 5002)
        .unwrap_err();
    assert_eq!(err.kind, ErrorKind::BrokenPipe);
    assert_eq!(err.message, "inotify event stream ended");
}
