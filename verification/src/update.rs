//! What is sent to the outputs: updates to clients, commands to the devices of this machine.

use vstd::prelude::*;

use crate::abs::{AbsAxis, AbsInfo};
use crate::axes::{AbsMap, RelSet};
use crate::event::Event;
use crate::key::Key;
use crate::keyset::KeySet;
use crate::rel::RelAxis;

verus! {

/// A message to a client.
#[derive(Debug)]
pub enum Update {
    /// Make a virtual device.
    CreateDevice {
        id: usize,
        name: Vec<u8>,
        version: u16,
        vendor: u16,
        product: u16,
        rel: RelSet,
        abs: AbsMap,
        keys: KeySet,
        delay: Option<i32>,
        period: Option<i32>,
    },
    /// Remove a virtual device.
    DestroyDevice { id: usize },
    /// Replay events on a virtual device.
    Events { id: usize, events: Vec<Event> },
    /// Bring the keys of a virtual device to exactly this state.
    SetKeyState { id: usize, pressed_keys: KeySet },
    /// Answer, to show that the connection is alive.
    Ping,
}

/// What an [`Update`] says.
#[verifier::ext_equal]
pub enum UpdateView {
    CreateDevice {
        id: usize,
        name: Seq<u8>,
        version: u16,
        vendor: u16,
        product: u16,
        rel: Set<RelAxis>,
        abs: Map<AbsAxis, AbsInfo>,
        keys: Set<Key>,
        delay: Option<i32>,
        period: Option<i32>,
    },
    DestroyDevice { id: usize },
    Events { id: usize, events: Seq<Event> },
    SetKeyState { id: usize, pressed_keys: Set<Key> },
    Ping,
}

impl View for Update {
    type V = UpdateView;

    open spec fn view(&self) -> UpdateView {
        match self {
            Update::CreateDevice {
                id,
                name,
                version,
                vendor,
                product,
                rel,
                abs,
                keys,
                delay,
                period,
            } => UpdateView::CreateDevice {
                id: *id,
                name: name@,
                version: *version,
                vendor: *vendor,
                product: *product,
                rel: rel@,
                abs: abs@,
                keys: keys@,
                delay: *delay,
                period: *period,
            },
            Update::DestroyDevice { id } => UpdateView::DestroyDevice { id: *id },
            Update::Events { id, events } => UpdateView::Events { id: *id, events: events@ },
            Update::SetKeyState { id, pressed_keys } => UpdateView::SetKeyState {
                id: *id,
                pressed_keys: pressed_keys@,
            },
            Update::Ping => UpdateView::Ping,
        }
    }
}

/// A command to the task of a device.
#[derive(Debug)]
pub enum DeviceCommand {
    /// Replay events.
    Events(Vec<Event>),
    /// Bring the keys to exactly this state.
    SetKeyState(KeySet),
    /// Make the virtual device anew.
    Reset,
}

/// What a [`DeviceCommand`] says.
#[verifier::ext_equal]
pub enum CommandView {
    Events(Seq<Event>),
    SetKeyState(Set<Key>),
    Reset,
}

impl View for DeviceCommand {
    type V = CommandView;

    open spec fn view(&self) -> CommandView {
        match self {
            DeviceCommand::Events(events) => CommandView::Events(events@),
            DeviceCommand::SetKeyState(keys) => CommandView::SetKeyState(keys@),
            DeviceCommand::Reset => CommandView::Reset,
        }
    }
}

} // verus!
