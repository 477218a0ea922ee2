//! The two states a cell can be in.

use vstd::prelude::*;

verus! {

/// The state of one cell of the grid.
#[derive(Clone, Copy, Debug, PartialEq, Eq, Structural)]
pub enum Cell {
    Dead,
    Alive,
}

impl Cell {
    /// The tag that stands for a stored bit: a set bit is a live cell.
    pub open spec fn of_bit(bit: bool) -> Cell {
        if bit {
            Cell::Alive
        } else {
            Cell::Dead
        }
    }

    /// The opposite state.
    pub open spec fn toggled(self) -> Cell {
        match self {
            Cell::Alive => Cell::Dead,
            Cell::Dead => Cell::Alive,
        }
    }

    /// Flips the cell in place: a live cell dies, a dead cell comes alive.
    pub fn toggle(&mut self)
        ensures
            *final(self) == old(self).toggled(),
    {
        *self = match *self {
            Cell::Alive => Cell::Dead,
            Cell::Dead => Cell::Alive,
        }
    }
}

} // verus!
