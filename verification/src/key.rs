//! Keys: what can be held down, on a keyboard or on another device.

use vstd::prelude::*;

pub use crate::button::Button;
pub use crate::keyboard::Keyboard;

verus! {

/// A key goes down or up.
#[derive(Clone, Copy, Debug, PartialEq, Eq, Hash, Structural)]
pub struct KeyEvent {
    pub key: Key,
    pub down: bool,
}

/// Something that can be held down.
#[derive(Clone, Copy, Debug, PartialEq, Eq, Hash, Structural)]
pub enum Key {
    Key(Keyboard),
    Button(Button),
}

impl Key {
    /// Ctrl, Shift, Alt and Meta, on either side of the keyboard.
    pub open spec fn modifies(self) -> bool {
        match self {
            Key::Key(Keyboard::LeftAlt)
            | Key::Key(Keyboard::LeftCtrl)
            | Key::Key(Keyboard::LeftMeta)
            | Key::Key(Keyboard::LeftShift)
            | Key::Key(Keyboard::RightAlt)
            | Key::Key(Keyboard::RightCtrl)
            | Key::Key(Keyboard::RightMeta)
            | Key::Key(Keyboard::RightShift) => true,
            _ => false,
        }
    }

    /// The event code of this key in the Linux input subsystem.
    pub open spec fn code(self) -> u16 {
        match self {
            Key::Key(key) => key.code(),
            Key::Button(button) => button.code(),
        }
    }

    /// The key that a code stands for, where there is one.
    pub open spec fn of_code(code: u16) -> Option<Key> {
        match Keyboard::of_code(code) {
            Some(key) => Some(Key::Key(key)),
            None => match Button::of_code(code) {
                Some(button) => Some(Key::Button(button)),
                None => None,
            },
        }
    }

    pub fn is_modifier(self) -> (modifier: bool)
        ensures
            modifier == self.modifies(),
    {
        match self {
            Key::Key(Keyboard::LeftAlt)
            | Key::Key(Keyboard::LeftCtrl)
            | Key::Key(Keyboard::LeftMeta)
            | Key::Key(Keyboard::LeftShift)
            | Key::Key(Keyboard::RightAlt)
            | Key::Key(Keyboard::RightCtrl)
            | Key::Key(Keyboard::RightMeta)
            | Key::Key(Keyboard::RightShift) => true,
            _ => false,
        }
    }

    pub fn from_raw(code: u16) -> (found: Option<Key>)
        ensures
            found == Key::of_code(code),
    {
        if let Some(key) = Keyboard::from_raw(code) {
            return Some(Key::Key(key));
        }
        if let Some(button) = Button::from_raw(code) {
            return Some(Key::Button(button));
        }
        None
    }

    pub fn to_raw(&self) -> (code: Option<u16>)
        ensures
            code == Some(self.code()),
    {
        match self {
            Key::Key(key) => key.to_raw(),
            Key::Button(button) => button.to_raw(),
        }
    }
}

/// A code names exactly the key whose code it is: reading a key's code back gives the key.
pub proof fn key_codes_round_trip(key: Key)
    ensures
        Key::of_code(key.code()) == Some(key),
{
    match key {
        Key::Key(key) => {
            crate::keyboard::keyboard_codes_round_trip(key);
        },
        Key::Button(button) => {
            crate::button::button_codes_round_trip(button);
            crate::button::button_code_is_kept(button.code());
            crate::keyboard::keyboard_code_is_kept(button.code());
        },
    }
}

/// A code that names a key is the code of that key.
pub proof fn key_code_is_kept(code: u16)
    ensures
        Key::of_code(code) matches Some(found) ==> found.code() == code,
{
    crate::keyboard::keyboard_code_is_kept(code);
    crate::button::button_code_is_kept(code);
}

/// Two keys with one code are one key.
pub proof fn key_codes_are_distinct(left: Key, right: Key)
    ensures
        left.code() == right.code() ==> left == right,
{
    key_codes_round_trip(left);
    key_codes_round_trip(right);
}

} // verus!
