//! Key events: a press or a release at a matrix position.

use vstd::prelude::*;

verus! {

/// A change of one switch, at `(row, col)` of the key matrix.
#[derive(Clone, Copy, Debug, PartialEq, Eq, Structural)]
pub enum KeyEvent {
    /// The switch closed.
    Press(u8, u8),
    /// The switch opened.
    Release(u8, u8),
}

impl KeyEvent {
    /// Row of the position.
    pub open spec fn row(self) -> u8 {
        match self {
            KeyEvent::Press(r, _) => r,
            KeyEvent::Release(r, _) => r,
        }
    }

    /// Column of the position.
    pub open spec fn col(self) -> u8 {
        match self {
            KeyEvent::Press(_, c) => c,
            KeyEvent::Release(_, c) => c,
        }
    }

    /// The position `(row, col)` of the event.
    pub fn coord(self) -> (rc: (u8, u8))
        ensures
            rc.0 == self.row(),
            rc.1 == self.col(),
    {
        match self {
            KeyEvent::Press(r, c) => (r, c),
            KeyEvent::Release(r, c) => (r, c),
        }
    }
}

} // verus!
