use vstd::prelude::*;

verus! {

/// The state of one cell of the grid.
#[derive(Clone, Copy, Debug, PartialEq, Eq, Structural)]
pub enum Cell {
    Dead,
    Alive,
}

/// What a cell contributes to a live count: one when alive, zero when dead.
#[verifier::opaque]
pub open spec fn live_value(c: Cell) -> nat {
    match c {
        Cell::Dead => 0,
        Cell::Alive => 1,
    }
}

/// The other state.
pub open spec fn flipped(c: Cell) -> Cell {
    match c {
        Cell::Dead => Cell::Alive,
        Cell::Alive => Cell::Dead,
    }
}

/// The birth / survival / death rule: the next state of a cell in state
/// `c` with `n` live neighbors.
pub open spec fn next_state(c: Cell, n: int) -> Cell {
    match c {
        Cell::Alive => if n == 2 || n == 3 { Cell::Alive } else { Cell::Dead },
        Cell::Dead => if n == 3 { Cell::Alive } else { Cell::Dead },
    }
}

impl Cell {
    /// One for a live cell, zero for a dead one.
    pub fn value(self) -> (r: u8)
        ensures
            r as nat == live_value(self),
            r <= 1,
    {
        proof {
            reveal(live_value);
        }
        match self {
            Cell::Dead => 0,
            Cell::Alive => 1,
        }
    }

    /// The other state.
    pub fn toggled(self) -> (r: Cell)
        ensures
            r == flipped(self),
    {
        match self {
            Cell::Dead => Cell::Alive,
            Cell::Alive => Cell::Dead,
        }
    }

    /// Applies the rule to this cell given its live-neighbor count.
    pub fn next(self, live_neighbors: u8) -> (r: Cell)
        ensures
            r == next_state(self, live_neighbors as int),
    {
        match self {
            Cell::Alive => {
                if live_neighbors == 2 || live_neighbors == 3 {
                    Cell::Alive
                } else {
                    Cell::Dead
                }
            },
            Cell::Dead => {
                if live_neighbors == 3 {
                    Cell::Alive
                } else {
                    Cell::Dead
                }
            },
        }
    }
}

} // verus!
