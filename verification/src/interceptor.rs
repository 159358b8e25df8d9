//! Input devices that are taken over: what they are, and how their events are read.

use std::collections::VecDeque;
use vstd::prelude::*;

use crate::abs::{AbsAxis, AbsEvent, AbsInfo, ToolType};
use crate::event::{
    Event, RawEvent, SyncEvent, ABS_MT_TOOL_TYPE, EV_ABS, EV_KEY, EV_REL, EV_SYN, SYN_DROPPED,
    SYN_MT_REPORT, SYN_REPORT,
};
use crate::io_error::{ErrorKind, IoError, ENODEV};
use crate::key::{Key, KeyEvent};
use crate::keyset::KeySet;
use crate::rel::{RelAxis, RelEvent};
use crate::text::{push_decimal};
use crate::writer::{FrameWrite, Writer};

verus! {

/// Where a device comes from.
#[derive(Clone, Copy, Debug, PartialEq, Eq, Structural)]
pub enum DeviceOrigin {
    Physical,
    Virtual,
}

/// The bytes of the path below which virtual input devices live: `/sys/devices/virtual/input`.
pub open spec fn virtual_root() -> Seq<u8> {
    seq![
        47u8, 115, 121, 115, 47, 100, 101, 118, 105, 99, 101, 115, 47, 118, 105, 114, 116, 117, 97,
        108, 47, 105, 110, 112, 117, 116,
    ]
}

/// The origin of a device by its place in sysfs: virtual exactly where it lies below the root of
/// virtual input devices.
pub open spec fn origin_of(path: Seq<u8>) -> DeviceOrigin {
    if crate::path::components_of(virtual_root()).is_prefix_of(crate::path::components_of(path)) {
        DeviceOrigin::Virtual
    } else {
        DeviceOrigin::Physical
    }
}

impl DeviceOrigin {
    pub fn from_sysfs_path(path: &[u8]) -> (origin: DeviceOrigin)
        ensures
            origin == origin_of(path@),
    {
        let root: Vec<u8> = vec![
            47, 115, 121, 115, 47, 100, 101, 118, 105, 99, 101, 115, 47, 118, 105, 114, 116, 117,
            97, 108, 47, 105, 110, 112, 117, 116,
        ];
        assert(root@ =~= virtual_root());
        if crate::path::starts_with(path, root.as_slice()) {
            DeviceOrigin::Virtual
        } else {
            DeviceOrigin::Physical
        }
    }
}

/// The kinds of events that a device can send.
#[derive(Clone, Copy, Debug, PartialEq, Eq, Structural)]
pub struct DeviceCapabilities {
    pub key: bool,
    pub relative: bool,
    pub absolute: bool,
}

/// What the kernel tells of a device: its name, its numbers, and for each kind of event whether it
/// can send it (`1`) or not.
#[derive(Debug)]
pub struct RawDevice {
    pub name: Vec<u8>,
    pub bustype: i32,
    pub vendor: i32,
    pub product: i32,
    pub version: i32,
    pub has_key: i32,
    pub has_rel: i32,
    pub has_abs: i32,
}

/// What is known of a device.
#[derive(Debug)]
pub struct DeviceInfo {
    path: Vec<u8>,
    sysfs_path: Vec<u8>,
    origin: DeviceOrigin,
    name: Vec<u8>,
    bustype: u16,
    vendor: u16,
    product: u16,
    version: u16,
    capabilities: DeviceCapabilities,
}

/// The facts that a [`DeviceInfo`] holds.
#[verifier::ext_equal]
pub struct DeviceFacts {
    pub path: Seq<u8>,
    pub sysfs_path: Seq<u8>,
    pub origin: DeviceOrigin,
    pub name: Seq<u8>,
    pub bustype: u16,
    pub vendor: u16,
    pub product: u16,
    pub version: u16,
    pub capabilities: DeviceCapabilities,
}

impl View for DeviceInfo {
    type V = DeviceFacts;

    closed spec fn view(&self) -> DeviceFacts {
        DeviceFacts {
            path: self.path@,
            sysfs_path: self.sysfs_path@,
            origin: self.origin,
            name: self.name@,
            bustype: self.bustype,
            vendor: self.vendor,
            product: self.product,
            version: self.version,
            capabilities: self.capabilities,
        }
    }
}

/// Copies some bytes.
pub fn copy_bytes(bytes: &Vec<u8>) -> (copy: Vec<u8>)
    ensures
        copy@ == bytes@,
{
    let copy = crate::path::copy_range(bytes.as_slice(), 0, bytes.len());
    assert(copy@ =~= bytes@);
    copy
}

impl Clone for DeviceInfo {
    fn clone(&self) -> (copy: DeviceInfo)
        ensures
            copy@ == self@,
    {
        DeviceInfo {
            path: copy_bytes(&self.path),
            sysfs_path: copy_bytes(&self.sysfs_path),
            origin: self.origin,
            name: copy_bytes(&self.name),
            bustype: self.bustype,
            vendor: self.vendor,
            product: self.product,
            version: self.version,
            capabilities: self.capabilities,
        }
    }
}

impl DeviceInfo {
    /// A device with these numbers. Its origin follows from its place in sysfs.
    pub fn new(
        path: Vec<u8>,
        sysfs_path: Vec<u8>,
        name: Vec<u8>,
        bustype: u16,
        vendor: u16,
        product: u16,
        version: u16,
        capabilities: DeviceCapabilities,
    ) -> (info: DeviceInfo)
        ensures
            info@ == (DeviceFacts {
                path: path@,
                sysfs_path: sysfs_path@,
                origin: origin_of(sysfs_path@),
                name: name@,
                bustype,
                vendor,
                product,
                version,
                capabilities,
            }),
    {
        let origin = DeviceOrigin::from_sysfs_path(sysfs_path.as_slice());
        DeviceInfo {
            path,
            sysfs_path,
            origin,
            name,
            bustype,
            vendor,
            product,
            version,
            capabilities,
        }
    }

    /// The device that the kernel describes. Its numbers are the low 16 bits of those given.
    pub fn from_evdev(path: Vec<u8>, sysfs_path: Vec<u8>, raw: RawDevice) -> (info: DeviceInfo)
        ensures
            info@ == (DeviceFacts {
                path: path@,
                sysfs_path: sysfs_path@,
                origin: origin_of(sysfs_path@),
                name: raw.name@,
                bustype: raw.bustype as u16,
                vendor: raw.vendor as u16,
                product: raw.product as u16,
                version: raw.version as u16,
                capabilities: DeviceCapabilities {
                    key: raw.has_key == 1,
                    relative: raw.has_rel == 1,
                    absolute: raw.has_abs == 1,
                },
            }),
    {
        DeviceInfo::new(
            path,
            sysfs_path,
            raw.name,
            #[verifier::truncate]
            (raw.bustype as u16),
            #[verifier::truncate]
            (raw.vendor as u16),
            #[verifier::truncate]
            (raw.product as u16),
            #[verifier::truncate]
            (raw.version as u16),
            DeviceCapabilities {
                key: raw.has_key == 1,
                relative: raw.has_rel == 1,
                absolute: raw.has_abs == 1,
            },
        )
    }

    pub fn path(&self) -> (path: &Vec<u8>)
        ensures
            path@ == self@.path,
    {
        &self.path
    }

    pub fn sysfs_path(&self) -> (path: &Vec<u8>)
        ensures
            path@ == self@.sysfs_path,
    {
        &self.sysfs_path
    }

    pub fn origin(&self) -> (origin: DeviceOrigin)
        ensures
            origin == self@.origin,
    {
        self.origin
    }

    pub fn name(&self) -> (name: &Vec<u8>)
        ensures
            name@ == self@.name,
    {
        &self.name
    }

    pub fn bustype(&self) -> (bustype: u16)
        ensures
            bustype == self@.bustype,
    {
        self.bustype
    }

    pub fn vendor(&self) -> (vendor: u16)
        ensures
            vendor == self@.vendor,
    {
        self.vendor
    }

    pub fn product(&self) -> (product: u16)
        ensures
            product == self@.product,
    {
        self.product
    }

    pub fn version(&self) -> (version: u16)
        ensures
            version == self@.version,
    {
        self.version
    }

    pub fn capabilities(&self) -> (capabilities: DeviceCapabilities)
        ensures
            capabilities == self@.capabilities,
    {
        self.capabilities
    }
}

/// The major number of a device.
pub open spec fn major_of(device: u64) -> u32 {
    (((device & 0x0000_0000_000f_ff00) >> 8) | ((device & 0xffff_f000_0000_0000) >> 32)) as u32
}

/// The minor number of a device.
pub open spec fn minor_of(device: u64) -> u32 {
    ((device & 0x0000_0000_0000_00ff) | ((device & 0x0000_0fff_fff0_0000) >> 12)) as u32
}

/// `libc::major`: bits 8 to 19 of the device number, below its bits 44 to 63.
#[verifier::external_body]
fn major(device: u64) -> (number: u32)
    ensures
        number == major_of(device),
{
    libc::major(device)
}

/// `libc::minor`: bits 0 to 7 of the device number, below its bits 20 to 43.
#[verifier::external_body]
fn minor(device: u64) -> (number: u32)
    ensures
        number == minor_of(device),
{
    libc::minor(device)
}

/// The place in sysfs that leads to a character device.
pub open spec fn sysfs_link(device: u64) -> Seq<char> {
    "/sys/dev/char/"@ + crate::text::decimal(major_of(device) as nat) + ":"@
        + crate::text::decimal(minor_of(device) as nat) + "/device"@
}

/// The place in sysfs that leads to the device of a node, by the node's device number.
pub fn source_sysfs_path(device: u64) -> (path: String)
    ensures
        path@ == sysfs_link(device),
{
    let mut path = String::new();
    path.append("/sys/dev/char/");
    push_decimal(&mut path, major(device) as u64);
    path.append(":");
    push_decimal(&mut path, minor(device) as u64);
    path.append("/device");
    proof {
        assert(path@ =~= sysfs_link(device));
    }
    path
}

/// Whether an error is what a negative return value of an input operation stands for. A device
/// that is gone counts as a broken pipe.
pub open spec fn is_input_error(ret: i32, error: IoError) -> bool {
    if ret == -ENODEV {
        error.kind == ErrorKind::BrokenPipe && error.os_code is None && error.message@
            == "Device disconnected"@
    } else {
        error.kind == crate::io_error::kind_of_code((-ret) as i32) && error.has_code((-ret) as i32)
    }
}

/// The error that a negative return value of an input operation stands for.
pub fn input_error(ret: i32) -> (error: IoError)
    requires
        ret > i32::MIN,
    ensures
        is_input_error(ret, error),
{
    if ret == -ENODEV {
        IoError::new(ErrorKind::BrokenPipe, "Device disconnected")
    } else {
        IoError::from_raw_os_error(-ret)
    }
}

/// Whether an error reports that a recovery failed with another one.
pub open spec fn is_recovery_error(cause: IoError, error: IoError) -> bool {
    error.kind == ErrorKind::BrokenPipe && error.os_code is None && error.message@
        == "Input recovery failed: "@ + cause.message@
}

/// The error of a recovery that failed.
pub fn recovery_error(err: IoError) -> (error: IoError)
    ensures
        is_recovery_error(err, error),
{
    let mut message = String::new();
    message.append("Input recovery failed: ");
    message.append(err.message.as_str());
    proof {
        assert(message@ =~= "Input recovery failed: "@ + err.message@);
    }
    IoError { kind: ErrorKind::BrokenPipe, os_code: None, message }
}

/// What a device was read.
#[derive(Debug)]
pub enum Frame {
    /// Events up to the end of a frame.
    Events(Vec<Event>),
    /// Events were lost. These keys are now held.
    InputLost { pressed_keys: KeySet },
}

/// One reading of a device.
#[derive(Clone, Copy, Debug)]
pub enum RawRead {
    Event(RawEvent),
    InputLost,
}

/// What becomes of a raw event.
#[derive(Clone, Copy, Debug, PartialEq, Eq, Structural)]
pub enum Translation {
    /// It is routed as this event.
    Event(Event),
    /// It stays on this machine: it is written back to the virtual device.
    Echo,
    /// It is dropped.
    Skip,
    /// It reports that events were lost.
    Lost,
}

/// Events of known axes and keys, and marks, are routed. The virtual device repeats keys by
/// itself, so repetitions are dropped. Everything else is echoed.
pub open spec fn translation(raw: RawEvent) -> Translation {
    let (kind, code, value) = raw;
    if kind == EV_REL {
        match RelAxis::of_code(code) {
            Some(axis) => Translation::Event(Event::Rel(RelEvent { axis, value })),
            None => Translation::Echo,
        }
    } else if kind == EV_ABS && code == ABS_MT_TOOL_TYPE {
        match ToolType::of_code(value) {
            Some(value) => Translation::Event(Event::Abs(AbsEvent::MtToolType { value })),
            None => Translation::Echo,
        }
    } else if kind == EV_ABS {
        match AbsAxis::of_code(code) {
            Some(axis) => Translation::Event(Event::Abs(AbsEvent::Axis { axis, value })),
            None => Translation::Echo,
        }
    } else if kind == EV_KEY && (value == 0 || value == 1) {
        match Key::of_code(code) {
            Some(key) => Translation::Event(Event::Key(KeyEvent { key, down: value == 1 })),
            None => Translation::Echo,
        }
    } else if kind == EV_KEY && value == 2 {
        Translation::Skip
    } else if kind == EV_SYN {
        if code == SYN_REPORT {
            Translation::Event(Event::Sync(SyncEvent::All))
        } else if code == SYN_DROPPED {
            Translation::Lost
        } else if code == SYN_MT_REPORT {
            Translation::Event(Event::Sync(SyncEvent::Mt))
        } else {
            Translation::Skip
        }
    } else {
        Translation::Echo
    }
}

/// What becomes of a raw event.
pub fn translate(raw: RawEvent) -> (result: Translation)
    ensures
        result == translation(raw),
{
    let (kind, code, value) = raw;
    if kind == EV_REL {
        match RelAxis::from_raw(code) {
            Some(axis) => Translation::Event(Event::Rel(RelEvent { axis, value })),
            None => Translation::Echo,
        }
    } else if kind == EV_ABS {
        if code == ABS_MT_TOOL_TYPE {
            match ToolType::from_raw(value) {
                Some(value) => Translation::Event(Event::Abs(AbsEvent::MtToolType { value })),
                None => Translation::Echo,
            }
        } else {
            match AbsAxis::from_raw(code) {
                Some(axis) => Translation::Event(Event::Abs(AbsEvent::Axis { axis, value })),
                None => Translation::Echo,
            }
        }
    } else if kind == EV_KEY && (value == 0 || value == 1) {
        match Key::from_raw(code) {
            Some(key) => Translation::Event(Event::Key(KeyEvent { key, down: value == 1 })),
            None => Translation::Echo,
        }
    } else if kind == EV_KEY && value == 2 {
        Translation::Skip
    } else if kind == EV_SYN {
        if code == SYN_REPORT {
            Translation::Event(Event::Sync(SyncEvent::All))
        } else if code == SYN_DROPPED {
            Translation::Lost
        } else if code == SYN_MT_REPORT {
            Translation::Event(Event::Sync(SyncEvent::Mt))
        } else {
            Translation::Skip
        }
    } else {
        Translation::Echo
    }
}

/// An event that is written to a virtual device is read back as the same event.
pub proof fn written_events_read_back(event: Event)
    ensures
        translation(crate::writer::raw_of(event)) == Translation::Event(event),
{
    match event {
        Event::Rel(RelEvent { axis, value }) => {
            crate::rel::rel_axis_codes_round_trip(axis);
        },
        Event::Abs(AbsEvent::Axis { axis, value }) => {
            crate::abs::abs_axis_codes_round_trip(axis);
        },
        Event::Abs(AbsEvent::MtToolType { value }) => {
            crate::abs::tool_type_codes_round_trip(value);
        },
        Event::Key(KeyEvent { key, down }) => {
            crate::key::key_codes_round_trip(key);
        },
        Event::Sync(_) => {},
    }
}

/// An event that is routed is written as the raw event that was read, but for a mark, whose value
/// is dropped.
pub proof fn routed_events_are_kept(raw: RawEvent)
    requires
        raw.0 != EV_SYN || raw.2 == 0,
    ensures
        translation(raw) matches Translation::Event(event) ==> crate::writer::raw_of(event) == raw,
{
    let (kind, code, value) = raw;
    crate::rel::rel_axis_code_is_kept(code);
    crate::abs::abs_axis_code_is_kept(code);
    crate::abs::tool_type_code_is_kept(value);
    crate::key::key_code_is_kept(code);
}

/// The key repetition of a device: the delay before it starts and the time between repetitions.
#[derive(Clone, Copy, Debug, PartialEq, Eq, Structural)]
pub struct Repeat {
    pub delay: Option<i32>,
    pub period: Option<i32>,
}

/// What the kernel says that a device can send, by code.
#[derive(Debug)]
pub struct RawCapabilities {
    pub rel: Vec<u16>,
    pub abs: Vec<(u16, AbsInfo)>,
    pub key: Vec<u16>,
    pub repeat: Repeat,
}

/// The relative axes that some codes name.
pub open spec fn axes_named(codes: Seq<u16>) -> Seq<RelAxis>
    decreases codes.len(),
{
    if codes.len() == 0 {
        seq![]
    } else {
        let before = axes_named(codes.drop_last());
        match RelAxis::of_code(codes.last()) {
            Some(axis) => before.push(axis),
            None => before,
        }
    }
}

/// The absolute axes that some codes name, each with its range.
pub open spec fn ranges_named(codes: Seq<(u16, AbsInfo)>) -> Seq<(AbsAxis, AbsInfo)>
    decreases codes.len(),
{
    if codes.len() == 0 {
        seq![]
    } else {
        let before = ranges_named(codes.drop_last());
        match AbsAxis::of_code(codes.last().0) {
            Some(axis) => before.push((axis, codes.last().1)),
            None => before,
        }
    }
}

/// The keys that some codes name.
pub open spec fn keys_named(codes: Seq<u16>) -> Seq<Key>
    decreases codes.len(),
{
    if codes.len() == 0 {
        seq![]
    } else {
        let before = keys_named(codes.drop_last());
        match Key::of_code(codes.last()) {
            Some(key) => before.push(key),
            None => before,
        }
    }
}

/// The relative axes of a device are those that its codes name. None stands there twice, as no code
/// does.
pub proof fn relative_axes_are_named_once(codes: Seq<u16>)
    requires
        codes.no_duplicates(),
    ensures
        axes_named(codes).no_duplicates(),
        forall|named: RelAxis| #[trigger]
            axes_named(codes).contains(named) <==> exists|at: int|
                0 <= at < codes.len() && RelAxis::of_code(#[trigger] codes[at]) == Some(named),
    decreases codes.len(),
{
    let all = axes_named(codes);
    if codes.len() > 0 {
        let shorter = codes.drop_last();
        let before = axes_named(shorter);
        let last = codes.last();
        relative_axes_are_named_once(shorter);
        crate::rel::rel_axis_code_is_kept(last);
        assert forall|named: RelAxis| #[trigger] all.contains(named) implies exists|at: int|
            0 <= at < codes.len() && RelAxis::of_code(#[trigger] codes[at]) == Some(named) by {
            if before.contains(named) {
                let at = choose|at: int|
                    0 <= at < shorter.len() && RelAxis::of_code(#[trigger] shorter[at]) == Some(named);
                assert(codes[at] == shorter[at]);
            } else {
                assert(codes[codes.len() - 1] == last);
            }
        }
        assert forall|named: RelAxis|
            (exists|at: int|
                0 <= at < codes.len() && RelAxis::of_code(#[trigger] codes[at]) == Some(
                    named,
                )) implies #[trigger] all.contains(named) by {
            let at = choose|at: int|
                0 <= at < codes.len() && RelAxis::of_code(#[trigger] codes[at]) == Some(named);
            if at < shorter.len() {
                assert(shorter[at] == codes[at]);
                assert(before.contains(named));
                let place = choose|place: int| 0 <= place < before.len() && before[place] == named;
                assert(all[place] == named);
            } else {
                assert(all[before.len() as int] == named);
            }
        }
        if let Some(named) = RelAxis::of_code(last) {
            if before.contains(named) {
                let at = choose|at: int|
                    0 <= at < shorter.len() && RelAxis::of_code(#[trigger] shorter[at]) == Some(named);
                crate::rel::rel_axis_code_is_kept(shorter[at]);
                assert(codes[at] == shorter[at]);
                assert(codes[at] == codes[codes.len() - 1]);
                assert(false);
            }
            assert(all == before.push(named));
        }
    }
}

/// The keys of a device are those that its codes name. None stands there twice, as no code does.
pub proof fn keys_are_named_once(codes: Seq<u16>)
    requires
        codes.no_duplicates(),
    ensures
        keys_named(codes).no_duplicates(),
        forall|named: Key| #[trigger]
            keys_named(codes).contains(named) <==> exists|at: int|
                0 <= at < codes.len() && Key::of_code(#[trigger] codes[at]) == Some(named),
    decreases codes.len(),
{
    let all = keys_named(codes);
    if codes.len() > 0 {
        let shorter = codes.drop_last();
        let before = keys_named(shorter);
        let last = codes.last();
        keys_are_named_once(shorter);
        crate::key::key_code_is_kept(last);
        assert forall|named: Key| #[trigger] all.contains(named) implies exists|at: int|
            0 <= at < codes.len() && Key::of_code(#[trigger] codes[at]) == Some(named) by {
            if before.contains(named) {
                let at = choose|at: int|
                    0 <= at < shorter.len() && Key::of_code(#[trigger] shorter[at]) == Some(named);
                assert(codes[at] == shorter[at]);
            } else {
                assert(codes[codes.len() - 1] == last);
            }
        }
        assert forall|named: Key|
            (exists|at: int|
                0 <= at < codes.len() && Key::of_code(#[trigger] codes[at]) == Some(
                    named,
                )) implies #[trigger] all.contains(named) by {
            let at = choose|at: int|
                0 <= at < codes.len() && Key::of_code(#[trigger] codes[at]) == Some(named);
            if at < shorter.len() {
                assert(shorter[at] == codes[at]);
                assert(before.contains(named));
                let place = choose|place: int| 0 <= place < before.len() && before[place] == named;
                assert(all[place] == named);
            } else {
                assert(all[before.len() as int] == named);
            }
        }
        if let Some(named) = Key::of_code(last) {
            if before.contains(named) {
                let at = choose|at: int|
                    0 <= at < shorter.len() && Key::of_code(#[trigger] shorter[at]) == Some(named);
                crate::key::key_code_is_kept(shorter[at]);
                assert(codes[at] == shorter[at]);
                assert(codes[at] == codes[codes.len() - 1]);
                assert(false);
            }
            assert(all == before.push(named));
        }
    }
}

/// Whether no code of a list stands there twice.
pub open spec fn codes_are_distinct(codes: Seq<(u16, AbsInfo)>) -> bool {
    forall|left: int, right: int|
        0 <= left < right < codes.len() ==> (#[trigger] codes[left]).0 != (
        #[trigger] codes[right]).0
}

/// The absolute axes of a device are those that its codes name, each with its range. None stands
/// there twice, as no code does.
pub proof fn absolute_axes_are_named_once(codes: Seq<(u16, AbsInfo)>)
    requires
        codes_are_distinct(codes),
    ensures
        crate::axes::axes_are_distinct(ranges_named(codes)),
        forall|axis: AbsAxis, info: AbsInfo| #[trigger]
            ranges_named(codes).contains((axis, info)) <==> codes.contains((axis.code(), info)),
    decreases codes.len(),
{
    let all = ranges_named(codes);
    if codes.len() > 0 {
        let shorter = codes.drop_last();
        let before = ranges_named(shorter);
        let last = codes.last();
        assert forall|left: int, right: int| 0 <= left < right < shorter.len() implies (
        #[trigger] shorter[left]).0 != (#[trigger] shorter[right]).0 by {
            assert(shorter[left] == codes[left] && shorter[right] == codes[right]);
        }
        absolute_axes_are_named_once(shorter);
        crate::abs::abs_axis_code_is_kept(last.0);
        assert forall|axis: AbsAxis, info: AbsInfo| #[trigger]
            all.contains((axis, info)) implies codes.contains((axis.code(), info)) by {
            let place = choose|place: int| 0 <= place < all.len() && all[place] == (axis, info);
            if place < before.len() {
                assert(before[place] == (axis, info));
                assert(before.contains((axis, info)));
                let at = choose|at: int|
                    0 <= at < shorter.len() && shorter[at] == (axis.code(), info);
                assert(codes[at] == shorter[at]);
            } else {
                assert(codes[codes.len() - 1] == (axis.code(), info));
            }
        }
        assert forall|axis: AbsAxis, info: AbsInfo|
            codes.contains((axis.code(), info)) implies #[trigger] all.contains((axis, info)) by {
            let at = choose|at: int| 0 <= at < codes.len() && codes[at] == (axis.code(), info);
            crate::abs::abs_axis_codes_round_trip(axis);
            if at < shorter.len() {
                assert(shorter[at] == (axis.code(), info));
                assert(shorter.contains((axis.code(), info)));
                assert(before.contains((axis, info)));
                let place = choose|place: int|
                    0 <= place < before.len() && before[place] == (axis, info);
                assert(all[place] == (axis, info));
            } else {
                assert(all[before.len() as int] == (axis, info));
            }
        }
        assert forall|left: int, right: int| 0 <= left < right < all.len() implies (
        #[trigger] all[left]).0 != (#[trigger] all[right]).0 by {
            if right < before.len() {
                assert(all[left] == before[left] && all[right] == before[right]);
            } else {
                assert(all[left] == before[left]);
                assert(before.contains((all[left].0, all[left].1)));
                let at = choose|at: int|
                    0 <= at < shorter.len() && shorter[at] == (all[left].0.code(), all[left].1);
                assert(codes[at] == shorter[at]);
                assert(codes[at].0 != codes[codes.len() - 1].0);
            }
        }
    }
}

/// Whether a key is among some codes, with a value that is not zero.
pub open spec fn is_held(codes: Seq<u16>, values: Seq<i32>, key: Key) -> bool {
    exists|at: int|
        0 <= at < codes.len() && Key::of_code(#[trigger] codes[at]) == Some(key) && values[at] != 0
}

/// A device that was taken over.
#[derive(Debug)]
pub struct Interceptor {
    name: Vec<u8>,
    vendor: u16,
    product: u16,
    version: u16,
    capabilities: RawCapabilities,
    writer: Option<Writer>,
    events: VecDeque<Event>,
    writing: Option<RawEvent>,
}

/// The state of the reading of an [`Interceptor`].
#[verifier::ext_equal]
pub struct Reading {
    /// The events of the frame that is being read.
    pub queue: Seq<Event>,
    /// The event that is being written back.
    pub writing: Option<RawEvent>,
    /// The keys that are down on the virtual device, while there is one.
    pub writer: Option<Set<Key>>,
}

/// Whether a read found that events were lost.
pub open spec fn is_loss(raw: RawRead) -> bool {
    raw is InputLost || translation(raw->Event_0) is Lost
}

impl Reading {
    /// The state after a read: the event is queued, written back or ignored. Where events were
    /// lost, what was read of the frame is dropped.
    pub open spec fn after(self, raw: RawRead) -> Reading {
        if is_loss(raw) {
            Reading { queue: seq![], writing: None, ..self }
        } else {
            match translation(raw->Event_0) {
                Translation::Event(event) => Reading { queue: self.queue.push(event), ..self },
                Translation::Echo => Reading { writing: Some(raw->Event_0), ..self },
                _ => self,
            }
        }
    }

    /// The state after some raw events were read, and those to be written back were written.
    pub open spec fn after_all(self, raws: Seq<RawEvent>) -> Reading
        decreases raws.len(),
    {
        if raws.len() == 0 {
            self
        } else {
            let before = self.after_all(raws.drop_last());
            Reading { writing: None, ..before.after(RawRead::Event(raws.last())) }
        }
    }
}

/// The events that are routed, of some raw events.
pub open spec fn routed(raws: Seq<RawEvent>) -> Seq<Event>
    decreases raws.len(),
{
    if raws.len() == 0 {
        seq![]
    } else {
        let before = routed(raws.drop_last());
        match translation(raws.last()) {
            Translation::Event(event) => before.push(event),
            _ => before,
        }
    }
}

/// A frame holds the routed events that were read for it, in order, unless events were lost.
pub proof fn frames_hold_what_was_read(reading: Reading, raws: Seq<RawEvent>)
    requires
        reading.queue == Seq::<Event>::empty(),
        forall|at: int| 0 <= at < raws.len() ==> !(translation(#[trigger] raws[at]) is Lost),
    ensures
        reading.after_all(raws).queue == routed(raws),
        reading.after_all(raws).writer == reading.writer,
    decreases raws.len(),
{
    if raws.len() > 0 {
        let before = raws.drop_last();
        assert forall|at: int| 0 <= at < before.len() implies !(translation(
            #[trigger] before[at],
        ) is Lost) by {
            assert(before[at] == raws[at]);
        }
        frames_hold_what_was_read(reading, before);
        assert(!(translation(raws[raws.len() - 1]) is Lost));
    }
}

/// Nothing that a device sends is withheld: but for marks and key repetitions, every event is routed
/// or written back as it was read.
pub proof fn other_events_are_written_back(reading: Reading, raw: RawEvent)
    requires
        raw.0 != EV_SYN,
        raw.0 != EV_KEY || raw.2 != 2,
    ensures
        !is_loss(RawRead::Event(raw)),
        match translation(raw) {
            Translation::Event(event) => reading.after(RawRead::Event(raw)) == (Reading {
                queue: reading.queue.push(event),
                ..reading
            }),
            _ => reading.after(RawRead::Event(raw)) == (Reading { writing: Some(raw), ..reading }),
        },
{
}

/// Whether the queue holds a whole frame.
pub open spec fn is_whole(queue: Seq<Event>) -> bool {
    queue.len() > 0 && queue.last() == Event::Sync(SyncEvent::All)
}

/// Whether nothing follows the end of a frame in the queue.
pub open spec fn is_one_frame(queue: Seq<Event>) -> bool {
    forall|at: int| 0 <= at < queue.len() - 1 ==> queue[at] != Event::Sync(SyncEvent::All)
}

/// What an interceptor needs next.
#[derive(Clone, Copy, Debug)]
pub enum ReadStep {
    /// A frame is there: take it.
    Frame,
    /// Write this event back to the virtual device.
    Write(RawEvent),
    /// Read the next raw event.
    Read,
}

impl Interceptor {
    /// The state of the reading.
    pub closed spec fn reading(&self) -> Reading {
        Reading {
            queue: self.events@,
            writing: self.writing,
            writer: match self.writer {
                Some(writer) => Some(writer@),
                None => None,
            },
        }
    }

    /// What the kernel says that the device can send.
    pub closed spec fn raw_capabilities(&self) -> RawCapabilities {
        self.capabilities
    }

    /// The name, vendor, product and version of the device.
    pub closed spec fn identity(&self) -> (Seq<u8>, u16, u16, u16) {
        (self.name@, self.vendor, self.product, self.version)
    }

    /// What holds of every interceptor.
    pub closed spec fn wf(&self) -> bool {
        is_one_frame(self.events@)
    }

    /// A device that was just taken over.
    pub fn new(
        name: Vec<u8>,
        vendor: u16,
        product: u16,
        version: u16,
        capabilities: RawCapabilities,
    ) -> (interceptor: Interceptor)
        ensures
            interceptor.wf(),
            interceptor.identity() == (name@, vendor, product, version),
            interceptor.raw_capabilities() == capabilities,
            interceptor.reading() == (Reading {
                queue: seq![],
                writing: None,
                writer: Some(Set::empty()),
            }),
    {
        let interceptor = Interceptor {
            name,
            vendor,
            product,
            version,
            capabilities,
            writer: Some(Writer::new()),
            events: VecDeque::new(),
            writing: None,
        };
        proof {
            assert(interceptor.events@ =~= Seq::<Event>::empty());
        }
        interceptor
    }

    pub fn name(&self) -> (name: &Vec<u8>)
        ensures
            name@ == self.identity().0,
    {
        &self.name
    }

    pub fn vendor(&self) -> (vendor: u16)
        ensures
            vendor == self.identity().1,
    {
        self.vendor
    }

    pub fn product(&self) -> (product: u16)
        ensures
            product == self.identity().2,
    {
        self.product
    }

    pub fn version(&self) -> (version: u16)
        ensures
            version == self.identity().3,
    {
        self.version
    }

    /// The relative axes of the device.
    pub fn rel(&self) -> (axes: Vec<RelAxis>)
        ensures
            axes@ == axes_named(self.raw_capabilities().rel@),
            self.raw_capabilities().rel@.no_duplicates() ==> axes@.no_duplicates(),
    {
        let codes = &self.capabilities.rel;
        let mut axes: Vec<RelAxis> = Vec::new();
        let mut index: usize = 0;
        proof {
            assert(codes@.take(0) =~= Seq::<u16>::empty());
        }
        while index < codes.len()
            invariant
                index <= codes@.len(),
                axes@ == axes_named(codes@.take(index as int)),
            decreases codes@.len() - index,
        {
            proof {
                assert(codes@.take(index + 1).drop_last() =~= codes@.take(index as int));
            }
            if let Some(axis) = RelAxis::from_raw(codes[index]) {
                axes.push(axis);
            }
            index = index + 1;
        }
        proof {
            assert(codes@.take(index as int) =~= codes@);
            if codes@.no_duplicates() {
                relative_axes_are_named_once(codes@);
            }
        }
        axes
    }

    /// The absolute axes of the device, each with its range.
    pub fn abs(&self) -> (axes: Vec<(AbsAxis, AbsInfo)>)
        ensures
            axes@ == ranges_named(self.raw_capabilities().abs@),
            codes_are_distinct(self.raw_capabilities().abs@) ==> crate::axes::axes_are_distinct(
                axes@,
            ),
    {
        let codes = &self.capabilities.abs;
        let mut axes: Vec<(AbsAxis, AbsInfo)> = Vec::new();
        let mut index: usize = 0;
        proof {
            assert(codes@.take(0) =~= Seq::<(u16, AbsInfo)>::empty());
        }
        while index < codes.len()
            invariant
                index <= codes@.len(),
                axes@ == ranges_named(codes@.take(index as int)),
            decreases codes@.len() - index,
        {
            proof {
                assert(codes@.take(index + 1).drop_last() =~= codes@.take(index as int));
            }
            let (code, info) = codes[index];
            if let Some(axis) = AbsAxis::from_raw(code) {
                axes.push((axis, info));
            }
            index = index + 1;
        }
        proof {
            assert(codes@.take(index as int) =~= codes@);
            if codes_are_distinct(codes@) {
                absolute_axes_are_named_once(codes@);
            }
        }
        axes
    }

    /// The keys of the device.
    pub fn key(&self) -> (keys: Vec<Key>)
        ensures
            keys@ == keys_named(self.raw_capabilities().key@),
            self.raw_capabilities().key@.no_duplicates() ==> keys@.no_duplicates(),
    {
        let codes = &self.capabilities.key;
        let mut keys: Vec<Key> = Vec::new();
        let mut index: usize = 0;
        proof {
            assert(codes@.take(0) =~= Seq::<u16>::empty());
        }
        while index < codes.len()
            invariant
                index <= codes@.len(),
                keys@ == keys_named(codes@.take(index as int)),
            decreases codes@.len() - index,
        {
            proof {
                assert(codes@.take(index + 1).drop_last() =~= codes@.take(index as int));
            }
            if let Some(key) = Key::from_raw(codes[index]) {
                keys.push(key);
            }
            index = index + 1;
        }
        proof {
            assert(codes@.take(index as int) =~= codes@);
            if codes@.no_duplicates() {
                keys_are_named_once(codes@);
            }
        }
        keys
    }

    /// The codes of the keys of the device, whose values tell which of them are held.
    pub fn key_codes(&self) -> (codes: &Vec<u16>)
        ensures
            codes@ == self.raw_capabilities().key@,
    {
        &self.capabilities.key
    }

    /// The keys that are held, by the current value of each key code of the device.
    pub fn pressed_keys(&self, values: &[i32]) -> (pressed: KeySet)
        requires
            values@.len() == self.raw_capabilities().key@.len(),
        ensures
            forall|key: Key| #[trigger]
                pressed@.contains(key) <==> is_held(self.raw_capabilities().key@, values@, key),
    {
        let codes = &self.capabilities.key;
        let mut pressed = KeySet::new();
        let mut index: usize = 0;
        while index < codes.len()
            invariant
                index <= codes@.len(),
                values@.len() == codes@.len(),
                forall|key: Key| #[trigger]
                    pressed@.contains(key) <==> exists|at: int|
                        0 <= at < index && Key::of_code(#[trigger] codes@[at]) == Some(key)
                            && values@[at] != 0,
            decreases codes@.len() - index,
        {
            let ghost before = pressed@;
            if values[index] != 0 {
                if let Some(key) = Key::from_raw(codes[index]) {
                    pressed.insert(key);
                }
            }
            proof {
                assert forall|key: Key| #[trigger] pressed@.contains(key) implies exists|at: int|
                    0 <= at < index + 1 && Key::of_code(#[trigger] codes@[at]) == Some(key)
                        && values@[at] != 0 by {
                    if before.contains(key) {
                        let at = choose|at: int|
                            0 <= at < index && Key::of_code(#[trigger] codes@[at]) == Some(key)
                                && values@[at] != 0;
                        assert(Key::of_code(codes@[at]) == Some(key));
                    } else {
                        assert(Key::of_code(codes@[index as int]) == Some(key));
                    }
                }
            }
            index = index + 1;
        }
        pressed
    }

    pub fn repeat(&self) -> (repeat: Repeat)
        ensures
            repeat == self.raw_capabilities().repeat,
    {
        self.capabilities.repeat
    }

    /// What is to be done to read a frame. An interrupted write is taken up first. Fails where it
    /// needs the virtual device and there is none.
    pub fn read_step(&self) -> (step: Result<ReadStep, IoError>)
        ensures
            match step {
                Ok(ReadStep::Write(raw)) => self.reading().writing == Some(raw)
                    && self.reading().writer is Some,
                Ok(ReadStep::Frame) => self.reading().writing is None && is_whole(
                    self.reading().queue,
                ),
                Ok(ReadStep::Read) => self.reading().writing is None && !is_whole(
                    self.reading().queue,
                ),
                Err(err) => self.reading().writing is Some && self.reading().writer is None
                    && is_writer_error(err),
            },
    {
        if let Some(raw) = self.writing {
            if self.writer.is_none() {
                return Err(IoError::new(ErrorKind::BrokenPipe, "Local writer unavailable"));
            }
            return Ok(ReadStep::Write(raw));
        }
        if self.is_frame_complete() {
            Ok(ReadStep::Frame)
        } else {
            Ok(ReadStep::Read)
        }
    }

    fn is_frame_complete(&self) -> (complete: bool)
        ensures
            complete == is_whole(self.reading().queue),
    {
        let count = self.events.len();
        if count == 0 {
            return false;
        }
        match self.events[count - 1] {
            Event::Sync(SyncEvent::All) => true,
            _ => false,
        }
    }

    /// Records that the event that was being written back is written.
    pub fn finish_write(&mut self)
        requires
            old(self).wf(),
        ensures
            final(self).wf(),
            final(self).raw_capabilities() == old(self).raw_capabilities(),
            final(self).identity() == old(self).identity(),
            final(self).reading() == (Reading { writing: None, ..old(self).reading() }),
    {
        self.writing = None;
    }

    /// Takes a raw event, and tells whether events were lost. Then what was read of the frame is
    /// dropped.
    pub fn accept(&mut self, raw: RawRead) -> (lost: bool)
        requires
            old(self).wf(),
            !is_whole(old(self).reading().queue),
        ensures
            final(self).wf(),
            final(self).raw_capabilities() == old(self).raw_capabilities(),
            final(self).identity() == old(self).identity(),
            lost == is_loss(raw),
            final(self).reading() == old(self).reading().after(raw),
    {
        let ghost before = self.events@;
        let translated = match raw {
            RawRead::Event(raw) => translate(raw),
            RawRead::InputLost => Translation::Lost,
        };
        match translated {
            Translation::Event(event) => {
                self.events.push_back(event);
                proof {
                    assert(self.events@ =~= before.push(event));
                    assert forall|at: int| 0 <= at < self.events@.len() - 1 implies self.events@[at]
                        != Event::Sync(SyncEvent::All) by {
                        if at == before.len() - 1 {
                            assert(before[at] == before.last());
                        }
                    }
                }
                false
            },
            Translation::Echo => {
                if let RawRead::Event(raw) = raw {
                    self.writing = Some(raw);
                }
                false
            },
            Translation::Skip => false,
            Translation::Lost => {
                self.recover_input_loss();
                true
            },
        }
    }

    /// Drops what was read of a frame.
    fn recover_input_loss(&mut self)
        ensures
            final(self).wf(),
            final(self).raw_capabilities() == old(self).raw_capabilities(),
            final(self).identity() == old(self).identity(),
            final(self).reading() == (Reading {
                queue: seq![],
                writing: None,
                ..old(self).reading()
            }),
    {
        self.events.clear();
        self.writing = None;
        proof {
            assert(self.events@ =~= Seq::<Event>::empty());
        }
    }

    /// Takes the next event of a whole frame.
    fn read(&mut self) -> (event: Option<Event>)
        requires
            old(self).wf(),
        ensures
            final(self).wf(),
            final(self).raw_capabilities() == old(self).raw_capabilities(),
            final(self).identity() == old(self).identity(),
            match event {
                Some(event) => is_whole(old(self).reading().queue) && event
                    == old(self).reading().queue[0] && final(self).reading() == (Reading {
                    queue: old(self).reading().queue.drop_first(),
                    ..old(self).reading()
                }),
                None => {
                    &&& !is_whole(old(self).reading().queue)
                    &&& final(self).reading() == old(self).reading()
                },
            },
    {
        if !self.is_frame_complete() {
            return None;
        }
        let ghost before = self.events@;
        let event = self.events.pop_front();
        proof {
            assert(self.events@ =~= before.drop_first());
            assert forall|at: int| 0 <= at < self.events@.len() - 1 implies self.events@[at]
                != Event::Sync(SyncEvent::All) by {
                assert(before[at + 1] != Event::Sync(SyncEvent::All));
            }
        }
        event
    }

    /// Takes a frame once it is whole.
    pub fn read_frame(&mut self) -> (frame: Option<Vec<Event>>)
        requires
            old(self).wf(),
        ensures
            final(self).wf(),
            final(self).raw_capabilities() == old(self).raw_capabilities(),
            final(self).identity() == old(self).identity(),
            match frame {
                Some(events) => {
                    &&& is_whole(old(self).reading().queue)
                    &&& events@ == old(self).reading().queue
                    &&& final(self).reading() == (Reading { queue: seq![], ..old(self).reading() })
                },
                None => {
                    &&& !is_whole(old(self).reading().queue)
                    &&& final(self).reading() == old(self).reading()
                },
            },
    {
        if !self.is_frame_complete() {
            return None;
        }
        let ghost frame = self.events@;
        let mut events: Vec<Event> = Vec::new();
        proof {
            assert(events@ + self.events@ =~= frame);
        }
        loop
            invariant
                self.wf(),
                is_whole(frame),
                is_one_frame(frame),
                events@ + self.reading().queue == frame,
                is_whole(self.reading().queue),
                self.raw_capabilities() == old(self).raw_capabilities(),
                self.identity() == old(self).identity(),
                frame == old(self).reading().queue,
                self.reading() == (Reading {
                    queue: self.reading().queue,
                    ..old(self).reading()
                }),
            decreases self.reading().queue.len(),
        {
            let ghost queue = self.reading().queue;
            let ghost taken = events@;
            match self.read() {
                Some(event) => {
                    let is_frame_end = match event {
                        Event::Sync(SyncEvent::All) => true,
                        _ => false,
                    };
                    events.push(event);
                    proof {
                        assert(events@ + self.reading().queue =~= taken + queue);
                        assert(frame[taken.len() as int] == event);
                        if is_frame_end {
                            assert(taken.len() == frame.len() - 1);
                            assert(self.reading().queue =~= Seq::<Event>::empty());
                            assert(events@ =~= frame);
                        } else {
                            if queue.len() == 1 {
                                assert(queue.last() == queue[0]);
                            }
                            assert(self.reading().queue.last() == queue.last());
                        }
                    }
                    if is_frame_end {
                        return Some(events);
                    }
                },
                None => {
                    assert(false);
                    return None;
                },
            }
        }
    }

    /// The writer of the virtual device. Fails where there is none.
    pub fn writer_mut(&mut self) -> (result: Result<&mut Writer, IoError>)
        requires
            old(self).wf(),
        ensures
            match result {
                Ok(writer) => old(self).reading().writer == Some(writer@) && final(self).reading()
                    == (Reading { writer: Some(final(writer)@), ..old(self).reading() }),
                Err(err) => {
                    &&& old(self).reading().writer is None
                    &&& is_writer_error(err)
                    &&& final(self).reading() == old(self).reading()
                },
            },
            final(self).wf(),
            final(self).raw_capabilities() == old(self).raw_capabilities(),
            final(self).identity() == old(self).identity(),
    {
        match &mut self.writer {
            Some(writer) => Ok(writer),
            None => Err(IoError::new(ErrorKind::BrokenPipe, "Local writer unavailable")),
        }
    }

    /// What is to be written for an event. Fails where there is no virtual device.
    pub fn write(&self, event: &Event) -> (result: Result<Option<RawEvent>, IoError>)
        ensures
            match result {
                Ok(raw) => self.reading().writer is Some && raw == Some(
                    crate::writer::raw_of(*event),
                ),
                Err(err) => self.reading().writer is None && is_writer_error(err),
            },
    {
        match &self.writer {
            Some(writer) => Ok(writer.write(event)),
            None => Err(IoError::new(ErrorKind::BrokenPipe, "Local writer unavailable")),
        }
    }

    /// What is to be written for a frame. Fails where there is no virtual device.
    pub fn write_frame(&self, events: &[Event]) -> (result: Result<FrameWrite, IoError>)
        ensures
            match result {
                Ok(write) => self.reading().writer is Some && write.wf() && write.raw_events()
                    == crate::writer::raws_of(events@) && write.written_count() == 0,
                Err(err) => self.reading().writer is None && is_writer_error(err),
            },
    {
        match &self.writer {
            Some(writer) => Ok(writer.write_frame(events)),
            None => Err(IoError::new(ErrorKind::BrokenPipe, "Local writer unavailable")),
        }
    }

    /// The frame that brings the keys of the virtual device to a state, if any is needed. Fails
    /// where there is no virtual device.
    pub fn set_key_state(&self, pressed_keys: &KeySet) -> (result: Result<
        Option<Vec<Event>>,
        IoError,
    >)
        ensures
            match result {
                Ok(Some(events)) => self.reading().writer is Some && events@
                    == crate::writer::state_change(self.reading().writer->0, pressed_keys@)
                    && events@.len() > 0,
                Ok(None) => self.reading().writer is Some && crate::writer::state_change(
                    self.reading().writer->0,
                    pressed_keys@,
                ).len() == 0,
                Err(err) => self.reading().writer is None && is_writer_error(err),
            },
    {
        match &self.writer {
            Some(writer) => Ok(writer.set_key_state(pressed_keys)),
            None => Err(IoError::new(ErrorKind::BrokenPipe, "Local writer unavailable")),
        }
    }

    /// Gives up the virtual device, so that a new one can be made.
    pub fn drop_writer(&mut self)
        requires
            old(self).wf(),
        ensures
            final(self).wf(),
            final(self).raw_capabilities() == old(self).raw_capabilities(),
            final(self).identity() == old(self).identity(),
            final(self).reading() == (Reading { writer: None, ..old(self).reading() }),
    {
        self.writer = None;
    }
}

/// Whether an error reports that there is no virtual device.
pub open spec fn is_writer_error(err: IoError) -> bool {
    err.kind == ErrorKind::BrokenPipe && err.os_code is None && err.message@
        == "Local writer unavailable"@
}

/// A read gave an event.
pub const READ_STATUS_SUCCESS: i32 = 0;

/// A read found that events were lost.
pub const READ_STATUS_SYNC: i32 = 1;

/// What a read of a device gave.
#[derive(Clone, Copy, Debug)]
pub enum NextEvent {
    Success(RawEvent),
    Sync,
}

/// Whether events are waiting, by the return value of the query.
pub fn has_pending_event(ret: i32) -> (pending: Result<bool, IoError>)
    requires
        ret > i32::MIN,
    ensures
        match pending {
            Ok(pending) => ret >= 0 && pending == (ret != 0),
            Err(err) => ret < 0 && is_input_error(ret, err),
        },
{
    if ret < 0 {
        return Err(input_error(ret));
    }
    Ok(ret != 0)
}

/// What a read gave, by its return value and the event that it filled in.
pub fn try_read_event(ret: i32, event: RawEvent) -> (next: Result<NextEvent, IoError>)
    requires
        ret > i32::MIN,
    ensures
        match next {
            Ok(NextEvent::Success(raw)) => ret == READ_STATUS_SUCCESS && raw == event,
            Ok(NextEvent::Sync) => ret == READ_STATUS_SYNC,
            Err(err) => if ret < 0 {
                is_input_error(ret, err)
            } else {
                ret > READ_STATUS_SYNC && err.kind == ErrorKind::InvalidData && err.os_code is None
                    && err.message@ == "Invalid libevdev read status"@
            },
        },
{
    if ret < 0 {
        return Err(input_error(ret));
    }
    if ret == READ_STATUS_SUCCESS {
        Ok(NextEvent::Success(event))
    } else if ret == READ_STATUS_SYNC {
        Ok(NextEvent::Sync)
    } else {
        Err(IoError::new(ErrorKind::InvalidData, "Invalid libevdev read status"))
    }
}

/// What a normal read of a device gave.
pub fn try_read_raw(next: NextEvent) -> (read: RawRead)
    ensures
        read == match next {
            NextEvent::Success(raw) => RawRead::Event(raw),
            NextEvent::Sync => RawRead::InputLost,
        },
{
    match next {
        NextEvent::Success(raw) => RawRead::Event(raw),
        NextEvent::Sync => RawRead::InputLost,
    }
}

/// What a failed read calls for.
#[derive(Clone, Copy, Debug, PartialEq, Eq, Structural)]
pub enum ReadRetry {
    /// Wait until the device can be read.
    Wait,
    /// Read again at once.
    Again,
    /// Give up.
    Fail,
}

/// What a failed read calls for: nothing was there, it was interrupted, or it is a real error.
pub fn read_retry(err: &IoError) -> (retry: ReadRetry)
    ensures
        retry == if err.kind == ErrorKind::WouldBlock {
            ReadRetry::Wait
        } else if err.has_code(crate::io_error::EINTR) {
            ReadRetry::Again
        } else {
            ReadRetry::Fail
        },
{
    if err.kind == ErrorKind::WouldBlock {
        ReadRetry::Wait
    } else if crate::io_error::is_interruption(err) {
        ReadRetry::Again
    } else {
        ReadRetry::Fail
    }
}

/// What a read says of the recovery after events were lost: it goes on while the device has
/// anything to report, is done when it has not, and fails on any other error.
pub fn drain_sync_events(read: Result<NextEvent, IoError>) -> (end: Option<Result<(), IoError>>)
    ensures
        match (read, end) {
            (Ok(_), None) => true,
            (Err(err), Some(Ok(_))) => err.kind == ErrorKind::WouldBlock,
            (Err(err), Some(Err(failed))) => err.kind != ErrorKind::WouldBlock && is_recovery_error(
                err,
                failed,
            ),
            _ => false,
        },
{
    match read {
        Ok(_) => None,
        Err(err) => {
            if err.kind == ErrorKind::WouldBlock {
                Some(Ok(()))
            } else {
                Some(Err(recovery_error(err)))
            }
        },
    }
}

/// Why a virtual device could not be made: its control node did not open, or the kernel refused.
#[derive(Debug)]
pub enum CreateError {
    Open(IoError),
    Create(IoError),
}

/// The error inside.
pub fn create_error_into_io(err: CreateError) -> (inner: IoError)
    ensures
        inner == match err {
            CreateError::Open(inner) => inner,
            CreateError::Create(inner) => inner,
        },
{
    match err {
        CreateError::Open(inner) => inner,
        CreateError::Create(inner) => inner,
    }
}

/// How far the making of a new virtual device came.
#[derive(Debug)]
pub enum WriterSetup {
    CreateFailed(CreateError),
    NoPath,
    NoMetadata(IoError),
    AlreadyRegistered,
    Ready,
}

impl Interceptor {
    /// Takes the result of making a new virtual device. No key is down on a new one.
    pub fn reset_writer(&mut self, setup: WriterSetup) -> (result: Result<(), IoError>)
        requires
            old(self).wf(),
        ensures
            final(self).wf(),
            final(self).raw_capabilities() == old(self).raw_capabilities(),
            final(self).identity() == old(self).identity(),
            final(self).reading() == (Reading {
                writer: if setup is Ready {
                    Some(Set::empty())
                } else {
                    None
                },
                ..old(self).reading()
            }),
            match (setup, result) {
                (WriterSetup::Ready, Ok(_)) => true,
                (WriterSetup::CreateFailed(CreateError::Open(inner)), Err(err)) => err == inner,
                (WriterSetup::CreateFailed(CreateError::Create(inner)), Err(err)) => err == inner,
                (WriterSetup::NoMetadata(inner), Err(err)) => err == inner,
                (WriterSetup::NoPath, Err(err)) => err.kind == ErrorKind::Other
                    && err.os_code is None && err.message@ == "No syspath for writer"@,
                (WriterSetup::AlreadyRegistered, Err(err)) => err.kind == ErrorKind::Other
                    && err.os_code is None && err.message@ == "Writer already registered"@,
                _ => false,
            },
    {
        self.writer = None;
        match setup {
            WriterSetup::CreateFailed(err) => Err(create_error_into_io(err)),
            WriterSetup::NoPath => Err(IoError::new(ErrorKind::Other, "No syspath for writer")),
            WriterSetup::NoMetadata(err) => Err(err),
            WriterSetup::AlreadyRegistered => Err(
                IoError::new(ErrorKind::Other, "Writer already registered"),
            ),
            WriterSetup::Ready => {
                self.writer = Some(Writer::new());
                Ok(())
            },
        }
    }
}

} // verus!
