//! The colours a board cell can hold.
use vstd::prelude::*;

verus! {

/// The colour of one board cell; `Reset` is an empty cell.
#[derive(Clone, Copy, Debug, PartialEq, Eq, Structural)]
pub enum Color {
    Reset,
    Blue,
    Green,
    Red,
    Yellow,
    Magenta,
    Cyan,
    White,
    DarkGray,
}

/// Whether a cell of this colour holds a block.
pub open spec fn is_filled(c: Color) -> bool {
    c != Color::Reset
}

impl Color {
    /// Whether the cell holds a block (any colour but `Reset`).
    pub fn has_tile(&self) -> (r: bool)
        ensures
            r == is_filled(*self),
    {
        *self != Color::Reset
    }
}

} // verus!
