use rkvm::config::{DeviceGroup, DeviceMatch, GroupCandidate};
use rkvm::interceptor::{DeviceCapabilities, DeviceInfo, DeviceOrigin};
use rkvm::listing::{
    any_matches, bustype_name, capability_summary, describe_device, group_match, origin_name,
    toml_string, whitelisted, Whitelisted,
};

#[test]
fn input_bus_names_match_linux_ids() {
    assert_eq!(bustype_name(0x0003), Some("BUS_USB"));
    assert_eq!(bustype_name(0x0006), Some("BUS_VIRTUAL"));
    assert_eq!(bustype_name(0x0018), Some("BUS_I2C"));
    assert_eq!(bustype_name(0x0019), Some("BUS_HOST"));
    assert_eq!(bustype_name(0xffff), None);
}

fn device(path: &[u8]) -> DeviceInfo {
    DeviceInfo::new(
        path.to_vec(),
        b"/sys/devices/pci/input3".to_vec(),
        b"pad".to_vec(),
        3,
        0x46d,
        2,
        0xabcd,
        DeviceCapabilities {
            key: true,
            relative: false,
            absolute: true,
        },
    )
}

fn rule(vendor: Option<u16>, path: Option<&[u8]>) -> DeviceMatch {
    DeviceMatch {
        path: path.map(|path| path.to_vec()),
        name: None,
        vendor,
        product: None,
        version: None,
        origin: None,
        bustype: None,
    }
}

fn candidate(vendor: u16, grab_delay_ms: Option<u64>) -> GroupCandidate {
    GroupCandidate {
        matcher: rule(Some(vendor), None),
        grab_delay_ms,
    }
}

fn groups() -> Vec<DeviceGroup> {
    vec![
        DeviceGroup {
            name: "other".to_owned(),
            candidates: vec![candidate(1, None)],
        },
        DeviceGroup {
            name: "my \"pad\"".to_owned(),
            candidates: vec![
                candidate(2, None),
                candidate(0x46d, Some(1500)),
                candidate(0x46d, None),
            ],
        },
    ]
}

#[test]
fn capabilities_are_listed() {
    let summary = |key: bool, relative: bool, absolute: bool| {
        capability_summary(DeviceCapabilities {
            key,
            relative,
            absolute,
        })
    };
    assert_eq!(summary(false, false, false), "[]");
    assert_eq!(summary(true, false, false), "[key]");
    assert_eq!(summary(false, true, true), "[relative, absolute]");
    assert_eq!(summary(true, true, true), "[key, relative, absolute]");
    assert_eq!(origin_name(DeviceOrigin::Physical), "physical");
    assert_eq!(origin_name(DeviceOrigin::Virtual), "virtual");
}

#[test]
fn quoted_texts_are_what_toml_reads() {
    for value in ["", "plain", "a\\b\"c\nd\re\tf", "\u{e9}\u{1f600}"] {
        let table = toml::from_str::<toml::Table>(&format!("x = {}", toml_string(value))).unwrap();
        assert_eq!(table["x"].as_str(), Some(value));
    }
    assert_eq!(toml_string("a\\\"\n\r\tz"), "\"a\\\\\\\"\\n\\r\\tz\"");
}

#[test]
fn whitelists_let_devices_through() {
    let info = device(b"/dev/input/event3");
    let rules = [
        rule(Some(1), None),
        rule(Some(0x46d), Some(b"/dev/input/by-id/pad")),
    ];
    let here = [None, Some(b"/dev/input/event3".to_vec())];
    let gone = [None, None];
    assert!(any_matches(&rules, &here, &info));
    assert!(!any_matches(&rules, &gone, &info));
    assert_eq!(whitelisted(Some(&rules), &here, &info), Whitelisted::Yes);
    assert_eq!(whitelisted(Some(&rules), &gone, &info), Whitelisted::No);
    assert_eq!(whitelisted(Some(&[]), &[], &info), Whitelisted::No);
    assert_eq!(whitelisted(None, &[], &info), Whitelisted::Disabled);
}

#[test]
fn the_first_matching_candidate_counts() {
    let info = device(b"/dev/input/event3");
    let resolved = [vec![None], vec![None, None, None]];
    assert_eq!(group_match(&groups(), &resolved, &info), Some((1, 1)));
    assert_eq!(group_match(&groups()[..1], &resolved[..1], &info), None);
}

#[test]
fn devices_are_described() {
    let text = describe_device(
        &device(b"/dev/input/event3"),
        "\"pad\"",
        Whitelisted::Disabled,
        Some(&groups()),
        Some((1, 1)),
        &[
            b"/dev/input/by-id/pad".to_vec(),
            b"/dev/input/by-path/\xff\"".to_vec(),
        ],
    );
    assert_eq!(
        text,
        "path = /dev/input/event3
sysfs-path = /sys/devices/pci/input3
origin = physical
name = \"pad\"
bustype = 0x0003 # BUS_USB
vendor = 0x046d
product = 0x0002
version = 0xabcd
capabilities = [key, absolute]
whitelisted = disabled
matching-group = \"my \\\"pad\\\"\"
matching-group-index = 2
matching-candidate-index = 2
configured-grab-delay-ms = 1500
aliases = [
    \"/dev/input/by-id/pad\",
    \"/dev/input/by-path/\u{fffd}\\\"\",
]

"
    );
}

#[test]
fn devices_without_groups_and_names_are_described() {
    let info = device(b"/dev/input/\xe9vent");
    let none = describe_device(&info, "x", Whitelisted::No, Some(&groups()), None, &[]);
    assert!(none.starts_with("path = /dev/input/\u{fffd}vent\n"));
    assert!(none.ends_with("whitelisted = no\nmatching-group = none\naliases = []\n\n"));
    let disabled = describe_device(&info, "x", Whitelisted::Yes, None, None, &[]);
    assert!(disabled.ends_with("whitelisted = yes\nmatching-group = disabled\naliases = []\n\n"));
}
