//! Keys as the key handlers see them.

use vstd::prelude::*;

verus! {

/// A pressed key.
#[derive(Clone, Copy, Debug, PartialEq, Eq, Structural)]
pub enum Key {
    Char(char),
    Esc,
    Enter,
    Backspace,
    Tab,
    BackTab,
    Left,
    Right,
    Up,
    Down,
    PageUp,
    PageDown,
    /// A function key, by number.
    F(u8),
    /// Any other key.
    Other,
}

} // verus!
