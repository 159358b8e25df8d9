use rkvm::config::{
    build_switch_bindings, client_queue_size, convert_switch_binding, find_policy_error,
    is_broad_device_whitelist, policy_message, propagates_switch_keys, validate_device_policy,
    BindingError, BindingName, Config, DeviceGroup, DeviceMatch, GroupCandidate, PolicyError,
};
use rkvm::event::{Event, SyncEvent};
use rkvm::interceptor::{DeviceCapabilities, DeviceInfo, DeviceOrigin};
use rkvm::key::{Key, KeyEvent, Keyboard};
use rkvm::keyset::KeySet;
use rkvm::routing::Router;
use toml::Value;

fn text(value: &Value, field: &str) -> Option<String> {
    value
        .get(field)
        .map(|value| value.as_str().unwrap().to_owned())
}

fn number(value: &Value, field: &str) -> Option<u16> {
    value
        .get(field)
        .map(|value| value.as_integer().unwrap().try_into().unwrap())
}

fn list<'a>(value: &'a Value, field: &str) -> Option<&'a Vec<Value>> {
    value.get(field).map(|value| value.as_array().unwrap())
}

fn keys(values: &[Value]) -> Vec<Key> {
    values
        .iter()
        .map(|value| match value.as_str().unwrap() {
            "left-ctrl" => Key::Key(Keyboard::LeftCtrl),
            "space" => Key::Key(Keyboard::Space),
            name => panic!("no key is called {}", name),
        })
        .collect()
}

fn rule(value: &Value) -> DeviceMatch {
    DeviceMatch {
        path: text(value, "path").map(String::into_bytes),
        name: text(value, "name").map(String::into_bytes),
        vendor: number(value, "vendor"),
        product: number(value, "product"),
        version: number(value, "version"),
        origin: None,
        bustype: number(value, "bustype"),
    }
}

fn config(data: &str) -> Config {
    let value = toml::from_str::<Value>(data).unwrap();
    Config {
        listen: text(&value, "listen").unwrap(),
        certificate: text(&value, "certificate").unwrap().into_bytes(),
        key: text(&value, "key").unwrap().into_bytes(),
        password: text(&value, "password").unwrap(),
        switch_keys: list(&value, "switch-keys").map(|values| keys(values)),
        switch_bindings: list(&value, "switch-bindings").map(|entries| {
            entries
                .iter()
                .map(|entry| keys(entry.as_array().unwrap()))
                .collect()
        }),
        propagate_switch_keys: value
            .get("propagate-switch-keys")
            .map(|value| value.as_bool().unwrap()),
        device_whitelist: list(&value, "device-whitelist")
            .map(|rules| rules.iter().map(rule).collect()),
        device_groups: list(&value, "device-groups").map(|groups| {
            groups
                .iter()
                .map(|group| DeviceGroup {
                    name: text(group, "name").unwrap(),
                    candidates: list(group, "candidates").map_or(Vec::new(), |candidates| {
                        candidates
                            .iter()
                            .map(|candidate| GroupCandidate {
                                matcher: rule(candidate),
                                grab_delay_ms: candidate
                                    .get("grab-delay-ms")
                                    .map(|value| value.as_integer().unwrap().try_into().unwrap()),
                            })
                            .collect()
                    }),
                })
                .collect()
        }),
        client_queue_size: value
            .get("client-queue-size")
            .map(|value| value.as_integer().unwrap().try_into().unwrap()),
    }
}

#[test]
fn device_policy_rejects_legacy_and_group_configuration_together() {
    let config = config(
        r#"
listen = "127.0.0.1:5258"
switch-keys = ["left-ctrl"]
certificate = "/etc/rkvm/certificate.pem"
key = "/etc/rkvm/key.pem"
password = "123456789"
device-whitelist = [{ name = "keyboard" }]

[[device-groups]]
name = "keyboard"
[[device-groups.candidates]]
name = "keyboard"
"#,
    );

    assert_eq!(
        validate_device_policy(&config).unwrap_err(),
        "device-whitelist and device-groups are mutually exclusive"
    );
}

#[test]
fn device_policy_rejects_duplicate_and_empty_groups() {
    let duplicate = config(
        r#"
listen = "127.0.0.1:5258"
switch-keys = ["left-ctrl"]
certificate = "/etc/rkvm/certificate.pem"
key = "/etc/rkvm/key.pem"
password = "123456789"

[[device-groups]]
name = "mouse"
[[device-groups.candidates]]
name = "mouse"

[[device-groups]]
name = "mouse"
[[device-groups.candidates]]
name = "other mouse"
"#,
    );
    assert_eq!(
        validate_device_policy(&duplicate).unwrap_err(),
        "duplicate device-group name \"mouse\""
    );

    let empty = config(
        r#"
listen = "127.0.0.1:5258"
switch-keys = ["left-ctrl"]
certificate = "/etc/rkvm/certificate.pem"
key = "/etc/rkvm/key.pem"
password = "123456789"

[[device-groups]]
name = "keyboard"
"#,
    );
    assert_eq!(
        validate_device_policy(&empty).unwrap_err(),
        "device-group \"keyboard\" must contain at least one candidate"
    );
}

#[test]
fn device_policy_rejects_empty_candidate_match() {
    let config = config(
        r#"
listen = "127.0.0.1:5258"
switch-keys = ["left-ctrl"]
certificate = "/etc/rkvm/certificate.pem"
key = "/etc/rkvm/key.pem"
password = "123456789"

[[device-groups]]
name = "keyboard"
[[device-groups.candidates]]
grab-delay-ms = 1000
"#,
    );
    assert_eq!(
        validate_device_policy(&config).unwrap_err(),
        "device-group \"keyboard\" candidates must contain at least one match field"
    );
}

#[test]
fn switch_keys_reject_duplicate_keys() {
    let config = config(
        r#"
listen = "127.0.0.1:5258"
switch-keys = ["left-ctrl", "left-ctrl"]
certificate = "/etc/rkvm/certificate.pem"
key = "/etc/rkvm/key.pem"
password = "123456789"
"#,
    );

    assert_eq!(
        build_switch_bindings(&config).unwrap_err(),
        "switch-keys must not contain duplicate keys"
    );
}

#[test]
fn switch_bindings_reject_empty_entries() {
    let config = config(
        r#"
listen = "127.0.0.1:5258"
switch-bindings = [[]]
certificate = "/etc/rkvm/certificate.pem"
key = "/etc/rkvm/key.pem"
password = "123456789"
"#,
    );

    assert_eq!(
        build_switch_bindings(&config).unwrap_err(),
        "switch-bindings entries must contain at least one key"
    );
}

#[test]
fn switch_bindings_reject_duplicate_keys() {
    let config = config(
        r#"
listen = "127.0.0.1:5258"
switch-bindings = [["left-ctrl", "space", "left-ctrl"]]
certificate = "/etc/rkvm/certificate.pem"
key = "/etc/rkvm/key.pem"
password = "123456789"
"#,
    );

    assert_eq!(
        build_switch_bindings(&config).unwrap_err(),
        "switch-bindings entries must not contain duplicate keys"
    );
}

fn plain() -> Config {
    Config {
        listen: String::new(),
        certificate: Vec::new(),
        key: Vec::new(),
        password: String::new(),
        switch_keys: None,
        switch_bindings: None,
        propagate_switch_keys: None,
        device_whitelist: None,
        device_groups: None,
        client_queue_size: None,
    }
}

fn anything() -> DeviceMatch {
    DeviceMatch {
        path: None,
        name: None,
        vendor: None,
        product: None,
        version: None,
        origin: None,
        bustype: None,
    }
}

fn vendor(vendor: u16) -> DeviceMatch {
    DeviceMatch {
        vendor: Some(vendor),
        ..anything()
    }
}

fn group(name: &str, rules: Vec<DeviceMatch>) -> DeviceGroup {
    DeviceGroup {
        name: name.to_owned(),
        candidates: rules
            .into_iter()
            .map(|matcher| GroupCandidate {
                matcher,
                grab_delay_ms: None,
            })
            .collect(),
    }
}

#[test]
fn some_switch_keys_are_needed() {
    assert_eq!(
        build_switch_bindings(&plain()).unwrap_err(),
        "either switch-keys or switch-bindings must be configured"
    );
    let empty = Config {
        switch_keys: Some(vec![]),
        ..plain()
    };
    assert_eq!(
        build_switch_bindings(&empty).unwrap_err(),
        "switch-keys must contain at least one key"
    );
    let none = Config {
        switch_bindings: Some(vec![]),
        ..plain()
    };
    assert_eq!(
        build_switch_bindings(&none).unwrap_err(),
        "either switch-keys or switch-bindings must be configured"
    );
}

#[test]
fn the_first_fault_of_the_switch_keys_is_reported() {
    let a = Key::Key(Keyboard::A);
    let both = Config {
        switch_keys: Some(vec![a, a]),
        switch_bindings: Some(vec![vec![]]),
        ..plain()
    };
    assert_eq!(
        build_switch_bindings(&both).unwrap_err(),
        "switch-keys must not contain duplicate keys"
    );
    assert_eq!(
        convert_switch_binding(&[], BindingName::SwitchBindings).unwrap_err(),
        BindingError::Empty {
            name: BindingName::SwitchBindings
        }
    );
    assert_eq!(
        convert_switch_binding(&[a, a], BindingName::SwitchBindings).unwrap_err(),
        BindingError::Duplicate {
            name: BindingName::SwitchBindings
        }
    );
}

#[test]
fn both_ways_to_give_switch_keys_count() {
    let a = Key::Key(Keyboard::A);
    let b = Key::Key(Keyboard::B);
    let config = Config {
        switch_keys: Some(vec![a, b]),
        switch_bindings: Some(vec![vec![b]]),
        ..plain()
    };
    assert_eq!(build_switch_bindings(&config).unwrap().len(), 2);
}

#[test]
fn the_last_switch_key_is_the_trigger() {
    let press = |key: Key, down: bool| {
        vec![
            Event::Key(KeyEvent { key, down }),
            Event::Sync(SyncEvent::All),
        ]
    };
    let a = Key::Key(Keyboard::A);
    let b = Key::Key(Keyboard::B);
    let config = Config {
        switch_keys: Some(vec![a, b]),
        ..plain()
    };
    let bindings = build_switch_bindings(&config).unwrap();

    let mut router = Router::new(&bindings, true);
    router.add_device(0, KeySet::new(), &[0, 1]);
    router.process_frame(0, press(a, true), &[0, 1]);
    router.process_frame(0, press(b, true), &[0, 1]);
    assert_eq!(router.current(), 1);

    let mut router = Router::new(&bindings, true);
    router.add_device(0, KeySet::new(), &[0, 1]);
    router.process_frame(0, press(b, true), &[0, 1]);
    router.process_frame(0, press(a, true), &[0, 1]);
    assert_eq!(router.current(), 0);
}

#[test]
fn every_fault_of_a_device_policy_is_found() {
    let whitelist = |rules: Vec<DeviceMatch>| Config {
        device_whitelist: Some(rules),
        ..plain()
    };
    let groups = |groups: Vec<DeviceGroup>| Config {
        device_groups: Some(groups),
        ..plain()
    };
    let cases = [
        (plain(), None),
        (whitelist(vec![]), None),
        (whitelist(vec![vendor(1)]), None),
        (
            whitelist(vec![vendor(1), anything()]),
            Some(PolicyError::EmptyRule),
        ),
        (groups(vec![]), Some(PolicyError::NoGroups)),
        (
            groups(vec![group(" \t", vec![vendor(1)])]),
            Some(PolicyError::BlankName),
        ),
        (groups(vec![group("a", vec![vendor(1)])]), None),
        (
            groups(vec![
                group("a", vec![vendor(1)]),
                group("a", vec![]),
                group("", vec![]),
            ]),
            Some(PolicyError::DuplicateName { group: 1 }),
        ),
        (
            groups(vec![group("a", vec![vendor(1)]), group("b", vec![])]),
            Some(PolicyError::NoCandidates { group: 1 }),
        ),
        (
            groups(vec![group("a", vec![vendor(1), anything()])]),
            Some(PolicyError::EmptyCandidate { group: 0 }),
        ),
        (
            Config {
                device_groups: Some(vec![]),
                ..whitelist(vec![anything()])
            },
            Some(PolicyError::Both),
        ),
    ];
    for (config, expected) in cases {
        assert_eq!(find_policy_error(&config), expected);
        assert_eq!(validate_device_policy(&config).is_ok(), expected.is_none());
    }
}

#[test]
fn policy_faults_have_texts() {
    assert_eq!(
        policy_message(PolicyError::EmptyRule, ""),
        "device-whitelist entries must contain at least one match field"
    );
    assert_eq!(
        policy_message(PolicyError::NoGroups, ""),
        "device-groups must contain at least one group"
    );
    assert_eq!(
        policy_message(PolicyError::BlankName, ""),
        "device-group names must not be empty"
    );
    assert_eq!(
        policy_message(PolicyError::DuplicateName { group: 3 }, "<name>"),
        "duplicate device-group name <name>"
    );
}

#[test]
fn names_are_quoted_in_messages() {
    let config = Config {
        device_groups: Some(vec![group("a\"\n\u{e9}", vec![])]),
        ..plain()
    };
    assert_eq!(
        validate_device_policy(&config).unwrap_err(),
        "device-group \"a\\\"\\n\u{e9}\" must contain at least one candidate"
    );
}

fn device() -> DeviceInfo {
    DeviceInfo::new(
        b"/dev/input/event3".to_vec(),
        b"/sys/devices/virtual/input/input3".to_vec(),
        b"pad".to_vec(),
        6,
        1,
        2,
        3,
        DeviceCapabilities {
            key: true,
            relative: false,
            absolute: false,
        },
    )
}

#[test]
fn all_fields_of_a_rule_must_agree() {
    assert!(anything().matches(&device(), None));
    assert!(anything().is_empty());
    let all = || DeviceMatch {
        path: Some(b"/dev/input/by-id/pad".to_vec()),
        name: Some(b"pad".to_vec()),
        vendor: Some(1),
        product: Some(2),
        version: Some(3),
        origin: Some(DeviceOrigin::Virtual),
        bustype: Some(6),
    };
    let here = b"/dev/input/event3".to_vec();
    let there = b"/dev/input/event4".to_vec();
    assert!(!all().is_empty());
    assert!(all().matches(&device(), Some(&here)));
    assert!(!all().matches(&device(), Some(&there)));
    assert!(!all().matches(&device(), None));
    let others = [
        DeviceMatch {
            name: Some(b"pa".to_vec()),
            ..all()
        },
        DeviceMatch {
            vendor: Some(0),
            ..all()
        },
        DeviceMatch {
            product: Some(0),
            ..all()
        },
        DeviceMatch {
            version: Some(0),
            ..all()
        },
        DeviceMatch {
            origin: Some(DeviceOrigin::Physical),
            ..all()
        },
        DeviceMatch {
            bustype: Some(3),
            ..all()
        },
    ];
    for other in others {
        assert!(!other.matches(&device(), Some(&here)));
    }
}

#[test]
fn rules_without_a_path_are_broad() {
    let with_path = || DeviceMatch {
        path: Some(b"/dev/input/event0".to_vec()),
        ..anything()
    };
    assert!(!is_broad_device_whitelist(&None));
    assert!(!is_broad_device_whitelist(&Some(vec![])));
    assert!(!is_broad_device_whitelist(&Some(vec![with_path()])));
    assert!(is_broad_device_whitelist(&Some(vec![with_path(), vendor(1)])));
}

#[test]
fn values_have_defaults() {
    assert_eq!(client_queue_size(&plain()), Ok(256));
    let some = Config {
        client_queue_size: Some(3),
        ..plain()
    };
    assert_eq!(client_queue_size(&some), Ok(3));
    let none = Config {
        client_queue_size: Some(0),
        ..plain()
    };
    assert_eq!(
        client_queue_size(&none),
        Err("client-queue-size must be greater than zero")
    );
    assert!(propagates_switch_keys(&plain()));
    let hidden = Config {
        propagate_switch_keys: Some(false),
        ..plain()
    };
    assert!(!propagates_switch_keys(&hidden));
}
