//! The key events that the session engine and the replay understand.

use vstd::prelude::*;

verus! {

/// A key event, as far as the trainer tells keys apart.
#[derive(Clone, Copy, Debug, PartialEq, Eq, Structural)]
pub enum Key {
    /// A character key. The space is the delimiter that ends a word.
    Char(char),
    /// The deletion key.
    Backspace,
    /// A character typed with the control key held. `Ctrl('c')` interrupts.
    Ctrl(char),
    /// Any other key.
    Other,
}

impl Key {
    /// The kinds of key that a log may hold: a character (the delimiter
    /// among them), a deletion, the interrupt.
    pub open spec fn replayable(self) -> bool {
        match self {
            Key::Char(_) => true,
            Key::Backspace => true,
            Key::Ctrl(c) => c == 'c',
            Key::Other => false,
        }
    }

    /// Whether a log may hold this key.
    pub fn is_replayable(&self) -> (replayable: bool)
        ensures
            replayable == self.replayable(),
    {
        match *self {
            Key::Char(_) => true,
            Key::Backspace => true,
            Key::Ctrl(c) => c == 'c',
            Key::Other => false,
        }
    }
}

} // verus!
