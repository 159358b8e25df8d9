//! Input events, and the numbers that the Linux input subsystem gives to their parts.

use vstd::prelude::*;

use crate::abs::AbsEvent;
use crate::key::{Key, KeyEvent};
use crate::rel::RelEvent;

verus! {

pub const EV_SYN: u16 = 0x00;

pub const EV_KEY: u16 = 0x01;

pub const EV_REL: u16 = 0x02;

pub const EV_ABS: u16 = 0x03;

pub const EV_SW: u16 = 0x05;

pub const EV_REP: u16 = 0x14;

pub const SYN_REPORT: u16 = 0;

pub const SYN_MT_REPORT: u16 = 2;

pub const SYN_DROPPED: u16 = 3;

pub const REL_X: u16 = 0x00;

pub const KEY_A: u16 = 30;

pub const ABS_MT_TOOL_TYPE: u16 = 0x37;

/// The number of absolute axis codes.
pub const ABS_CNT: u16 = 0x40;

pub const REP_DELAY: u16 = 0x00;

pub const REP_PERIOD: u16 = 0x01;

pub const BUS_VIRTUAL: u16 = 0x06;

/// A mark that separates groups of events.
#[derive(Clone, Copy, Debug, PartialEq, Eq, Hash, Structural)]
pub enum SyncEvent {
    /// The end of a frame.
    All,
    /// The end of the data of one touch contact.
    Mt,
}

impl SyncEvent {
    /// The number of this mark in the Linux input subsystem.
    pub open spec fn code(self) -> u16 {
        match self {
            SyncEvent::All => SYN_REPORT,
            SyncEvent::Mt => SYN_MT_REPORT,
        }
    }

    pub fn to_raw(&self) -> (code: Option<u16>)
        ensures
            code == Some(self.code()),
    {
        Some(
            match self {
                SyncEvent::All => SYN_REPORT,
                SyncEvent::Mt => SYN_MT_REPORT,
            },
        )
    }
}

/// One input event.
#[derive(Clone, Copy, Debug, PartialEq, Eq, Hash, Structural)]
pub enum Event {
    Rel(RelEvent),
    Abs(AbsEvent),
    Key(KeyEvent),
    Sync(SyncEvent),
}

/// An event as the kernel passes it: type, code and value.
pub type RawEvent = (u16, u16, i32);

/// The keys that are down after some events.
pub open spec fn keys_after(down: Set<Key>, events: Seq<Event>) -> Set<Key>
    decreases events.len(),
{
    if events.len() == 0 {
        down
    } else {
        let before = keys_after(down, events.drop_last());
        match events.last() {
            Event::Key(KeyEvent { key, down: true }) => before.insert(key),
            Event::Key(KeyEvent { key, down: false }) => before.remove(key),
            _ => before,
        }
    }
}

} // verus!
