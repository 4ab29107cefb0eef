//! Key presses as the interactive program sees them.

use vstd::prelude::*;

verus! {

/// A key, as far as the program tells keys apart.
#[derive(Clone, Copy, Debug, PartialEq, Eq, Structural)]
pub enum Key {
    /// A key that types a character.
    Char(char),
    Up,
    Down,
    Left,
    Right,
    Esc,
    Enter,
    /// Any other key.
    Other,
}

/// A key press: the key, and whether the control key was held.
#[derive(Clone, Copy, Debug, PartialEq, Eq, Structural)]
pub struct InputEvent {
    pub key: Key,
    pub control: bool,
}

impl InputEvent {
    /// The press of `key` alone.
    pub fn from_key(key: Key) -> (event: Self)
        ensures
            event == (InputEvent { key, control: false }),
    {
        InputEvent { key, control: false }
    }

    /// The press of `key`, with the control key held or not.
    pub fn from_event(key: Key, control: bool) -> (event: Self)
        ensures
            event == (InputEvent { key, control }),
    {
        InputEvent { key, control }
    }
}

} // verus!
