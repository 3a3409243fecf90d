//! The state of a single position and the rule by which it changes.

use vstd::prelude::*;

verus! {

/// The channel value that a pixel must exceed, in red, green or blue, to seed
/// a live cell.
pub const BRIGHTNESS_THRESHOLD: u8 = 128;

/// The state of one position of the grid.
#[derive(Clone, Copy, Debug, PartialEq, Eq, Structural)]
pub enum Cell {
    /// Nothing lives here.
    Dead,
    /// A live cell.
    Alive,
}

impl Cell {
    /// What the cell adds to a count of live cells: 1 when alive, 0 when dead.
    pub open spec fn weight(self) -> nat {
        match self {
            Cell::Dead => 0,
            Cell::Alive => 1,
        }
    }

    /// The state one generation after `self`, given the number of live
    /// neighbors: a birth on exactly three, survival on two or three.
    pub open spec fn successor(self, live: nat) -> Cell {
        if live == 3 || (self == Cell::Alive && live == 2) {
            Cell::Alive
        } else {
            Cell::Dead
        }
    }

    /// The cell that a pixel of the given color seeds: alive when red, green
    /// or blue exceeds the brightness threshold, dead otherwise.
    pub open spec fn of_color(red: u8, green: u8, blue: u8) -> Cell {
        if red > BRIGHTNESS_THRESHOLD || green > BRIGHTNESS_THRESHOLD || blue
            > BRIGHTNESS_THRESHOLD {
            Cell::Alive
        } else {
            Cell::Dead
        }
    }

    /// The cell as a number that can be summed: 1 when alive, 0 when dead.
    pub fn as_u8(self) -> (n: u8)
        ensures
            n == self.weight(),
    {
        match self {
            Cell::Dead => 0,
            Cell::Alive => 1,
        }
    }

    /// Maps the color of a pixel to the cell that it seeds.
    pub fn from_color(red: u8, green: u8, blue: u8) -> (cell: Cell)
        ensures
            cell == Cell::of_color(red, green, blue),
    {
        if red > BRIGHTNESS_THRESHOLD || green > BRIGHTNESS_THRESHOLD || blue
            > BRIGHTNESS_THRESHOLD {
            Cell::Alive
        } else {
            Cell::Dead
        }
    }

    /// Applies the transition rule to a cell with `live` live neighbors.
    pub fn next_state(self, live: u8) -> (next: Cell)
        ensures
            next == self.successor(live as nat),
    {
        if self == Cell::Alive {
            if live < 2 || live > 3 {
                Cell::Dead
            } else {
                Cell::Alive
            }
        } else if live == 3 {
            Cell::Alive
        } else {
            Cell::Dead
        }
    }
}

} // verus!
