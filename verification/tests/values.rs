use rkvm::config::is_blank_name;
use rkvm::io_error::{
    is_device_disconnect, is_disappearance, is_interruption, ErrorKind, IoError, EACCES, EBUSY,
    EINTR, EINVAL, EIO, ENODEV, ENOENT, ENOTTY, EPERM,
};
use rkvm::path::{components, file_name, is_event_filename, precedes, starts_with};
use rkvm::pathset::PathSet;
use rkvm::text::{push_decimal, push_hex4};
use std::path::Path;

const PATHS: &[&str] = &[
    "",
    "/",
    ".",
    "..",
    "/.",
    "./a",
    "a/./",
    "a/b/",
    "a//",
    "/a/b/../c",
    "/dev/input/event1",
    "/dev/input/event10",
    "/dev/input/event2",
    "/dev/input",
    "/dev/input/",
    "/dev/inputs",
    "event",
    "/dev/event/",
    "/dev/event/..",
    "/dev/\u{e9}vent",
    "/dev/event\u{e9}",
    "...",
    "a/..",
];

#[test]
fn error_codes_are_those_of_the_system() {
    assert_eq!(
        [
            EPERM, ENOENT, EINTR, EIO, EACCES, EBUSY, ENODEV, EINVAL, ENOTTY
        ],
        [
            libc::EPERM,
            libc::ENOENT,
            libc::EINTR,
            libc::EIO,
            libc::EACCES,
            libc::EBUSY,
            libc::ENODEV,
            libc::EINVAL,
            libc::ENOTTY
        ]
    );
}

#[test]
fn error_kinds_are_those_of_std() {
    for code in 1..=133 {
        let error = IoError::from_raw_os_error(code);
        let std_error = std::io::Error::from_raw_os_error(code);
        // Two of the kinds have a name that is not stable.
        let expected = match format!("{:?}", std_error.kind()).as_str() {
            "FilesystemLoop" | "InProgress" => "Uncategorized".to_owned(),
            name => name.to_owned(),
        };
        assert_eq!(format!("{:?}", error.kind), expected, "code {}", code);
        assert_eq!(error.os_code, Some(code));
        assert_eq!(error.message, std_error.to_string());
    }
}

#[test]
fn kinds_of_codes_that_decide_something() {
    let kind = |code: i32| IoError::from_raw_os_error(code).kind;
    assert_eq!(kind(libc::ENOENT), ErrorKind::NotFound);
    assert_eq!(kind(libc::EPIPE), ErrorKind::BrokenPipe);
    assert_eq!(kind(libc::EAGAIN), ErrorKind::WouldBlock);
    assert_eq!(kind(libc::EBUSY), ErrorKind::ResourceBusy);
    assert_eq!(kind(libc::EINTR), ErrorKind::Interrupted);
    assert_eq!(kind(libc::EIO), ErrorKind::Uncategorized);
    assert_eq!(kind(libc::ENODEV), ErrorKind::Uncategorized);
}

#[test]
fn errors_of_vanished_things() {
    assert!(is_disappearance(&IoError::from_raw_os_error(libc::ENOENT)));
    assert!(is_disappearance(&IoError::from_raw_os_error(libc::ENODEV)));
    assert!(is_disappearance(&IoError::new(ErrorKind::NotFound, "x")));
    assert!(!is_disappearance(&IoError::from_raw_os_error(libc::EIO)));
    assert!(is_device_disconnect(&IoError::new(ErrorKind::BrokenPipe, "x")));
    assert!(is_device_disconnect(&IoError::from_raw_os_error(libc::ENODEV)));
    assert!(is_device_disconnect(&IoError::from_raw_os_error(libc::EIO)));
    assert!(!is_device_disconnect(&IoError::from_raw_os_error(libc::ENOENT)));
    assert!(is_interruption(&IoError::from_raw_os_error(libc::EINTR)));
    assert!(!is_interruption(&IoError::new(ErrorKind::Interrupted, "x")));
}

#[test]
fn paths_are_taken_apart_as_std_does() {
    for left in PATHS {
        assert_eq!(
            components(left.as_bytes()).len(),
            Path::new(left).components().count(),
            "{:?}",
            left
        );
        assert_eq!(
            file_name(left.as_bytes()).as_deref(),
            Path::new(left)
                .file_name()
                .map(|name| name.as_encoded_bytes())
        );
        for right in PATHS {
            assert_eq!(
                starts_with(left.as_bytes(), right.as_bytes()),
                Path::new(left).starts_with(right),
                "{:?} {:?}",
                left,
                right
            );
            assert_eq!(
                precedes(left.as_bytes(), right.as_bytes()),
                Path::new(left) < Path::new(right),
                "{:?} {:?}",
                left,
                right
            );
        }
    }
}

#[test]
fn event_nodes_go_by_their_names() {
    for path in PATHS {
        let expected = Path::new(path)
            .file_name()
            .and_then(|name| name.to_str())
            .map_or(false, |name| name.starts_with("event"));
        assert_eq!(is_event_filename(path.as_bytes()), expected, "{:?}", path);
    }
    assert!(!is_event_filename(b"/dev/event\xff"));
    assert!(is_event_filename(b"/dev/\xff/event"));
}

#[test]
fn path_sets_are_those_of_std() {
    let mut set = PathSet::new();
    let mut expected = std::collections::BTreeSet::new();
    for path in PATHS {
        assert_eq!(
            set.insert(path.as_bytes().to_vec()),
            expected.insert(Path::new(path))
        );
    }
    assert_eq!(set.len(), expected.len());
    let listed: Vec<Vec<u8>> = expected
        .iter()
        .map(|path| path.as_os_str().as_encoded_bytes().to_vec())
        .collect();
    assert_eq!(set.as_slice(), &listed[..]);
    assert_eq!(set.clone().as_slice(), set.as_slice());
}

#[test]
fn white_space_is_that_of_std() {
    for code in 0..=0x10ffff {
        if let Some(ch) = char::from_u32(code) {
            assert_eq!(
                is_blank_name(&ch.to_string()),
                ch.is_whitespace(),
                "{:?}",
                ch
            );
        }
    }
    assert!(is_blank_name(""));
    assert!(is_blank_name(" \t\u{3000}"));
    assert!(!is_blank_name(" a "));
}

#[test]
fn numbers_are_written_as_std_does() {
    for value in [0, 7, 10, 99, 100, 65535, u64::MAX] {
        let mut text = String::from("n=");
        push_decimal(&mut text, value);
        assert_eq!(text, format!("n={}", value));
    }
    for value in [0, 0xf, 0x1234, 0xabcd, 0xffff] {
        let mut text = String::new();
        push_hex4(&mut text, value);
        assert_eq!(text, format!("0x{:04x}", value));
    }
}
