use rkvm::config::{DeviceGroup, DeviceMatch, GroupCandidate};
use rkvm::interceptor::{DeviceCapabilities, DeviceInfo};
use rkvm::policy::{allows, delay_of, place_of, Place};

fn device(vendor: u16) -> DeviceInfo {
    DeviceInfo::new(
        b"/dev/input/event4".to_vec(),
        b"/sys/devices/pci/input4".to_vec(),
        b"pad".to_vec(),
        3,
        vendor,
        2,
        1,
        DeviceCapabilities {
            key: true,
            relative: false,
            absolute: false,
        },
    )
}

fn rule(vendor: u16) -> DeviceMatch {
    DeviceMatch {
        path: None,
        name: None,
        vendor: Some(vendor),
        product: None,
        version: None,
        origin: None,
        bustype: None,
    }
}

fn candidate(vendor: u16, grab_delay_ms: Option<u64>) -> GroupCandidate {
    GroupCandidate {
        matcher: rule(vendor),
        grab_delay_ms,
    }
}

fn groups() -> Vec<DeviceGroup> {
    vec![
        DeviceGroup {
            name: "keyboard".to_owned(),
            candidates: vec![candidate(1, None)],
        },
        DeviceGroup {
            name: "pad".to_owned(),
            candidates: vec![candidate(2, Some(0)), candidate(3, Some(1500)), candidate(1, None)],
        },
    ]
}

#[test]
fn without_a_policy_all_devices_are_allowed() {
    assert!(allows(None, None, &[], &[], &device(7)));
}

#[test]
fn a_whitelist_allows_what_it_matches() {
    let rules = [rule(1), rule(2)];
    assert!(allows(Some(&rules), None, &[None, None], &[], &device(2)));
    assert!(!allows(Some(&rules), None, &[None, None], &[], &device(3)));
    assert!(!allows(Some(&[]), None, &[], &[], &device(3)));
}

#[test]
fn groups_come_before_a_whitelist() {
    let rules = [rule(7)];
    let resolved = [vec![None], vec![None, None, None]];
    let allowed = |vendor: u16| {
        allows(
            Some(&rules),
            Some(&groups()),
            &[None],
            &resolved,
            &device(vendor),
        )
    };
    assert!(allowed(1));
    assert!(allowed(3));
    assert!(!allowed(7));
    assert!(!allows(Some(&rules), Some(&[]), &[None], &[], &device(7)));
}

#[test]
fn a_device_stands_at_its_first_match() {
    let resolved = [vec![None], vec![None, None, None]];
    assert_eq!(
        place_of(&groups(), &resolved, &device(1)),
        Some(Place {
            group: 0,
            rank: 0,
            delay: 0,
        })
    );
    assert_eq!(
        place_of(&groups(), &resolved, &device(3)),
        Some(Place {
            group: 1,
            rank: 1,
            delay: 1500,
        })
    );
    assert_eq!(place_of(&groups(), &resolved, &device(7)), None);
}

#[test]
fn a_missing_delay_is_none() {
    assert_eq!(delay_of(&groups(), (0, 0)), 0);
    assert_eq!(delay_of(&groups(), (1, 0)), 0);
    assert_eq!(delay_of(&groups(), (1, 1)), 1500);
}
