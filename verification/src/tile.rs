//! The value types of the grid: a coordinate and the tile that lives there.

use vstd::prelude::*;

verus! {

/// A position on the grid: `x` is the column, `y` the row.
#[derive(Copy, Clone, PartialEq, Eq, Debug, Structural)]
pub struct Coordinate {
    pub x: usize,
    pub y: usize,
}

impl Coordinate {
    pub fn new(x: usize, y: usize) -> (c: Coordinate)
        ensures
            c.x == x,
            c.y == y,
    {
        Coordinate { x, y }
    }

    /// The origin, the top-left corner of every grid.
    pub fn default() -> (c: Coordinate)
        ensures
            c.x == 0,
            c.y == 0,
    {
        Coordinate { x: 0, y: 0 }
    }

    /// The position as a pair of mathematical integers, column first.
    pub open spec fn pos(self) -> (int, int) {
        (self.x as int, self.y as int)
    }
}

/// One cell of the grid.
///
/// `number` is the count of mines among the up to eight surrounding tiles; it
/// is `None` on a mine and on a tile with no mine around it.
#[derive(Copy, Clone, PartialEq, Eq, Debug, Structural)]
pub struct Tile {
    pub is_revealed: bool,
    pub is_a_mine: bool,
    pub is_flagged: bool,
    pub number: Option<u8>,
    pub coordinates: Coordinate,
}

impl Default for Tile {
    /// A fresh tile at the origin.
    fn default() -> (t: Tile)
        ensures
            t == Tile::fresh(Coordinate { x: 0, y: 0 }),
    {
        Tile::new(Coordinate::default())
    }
}

impl Tile {
    /// A fresh tile at `coordinates`: hidden, unflagged, no mine, no number.
    pub fn new(coordinates: Coordinate) -> (t: Tile)
        ensures
            t == Tile::fresh(coordinates),
    {
        Tile { is_revealed: false, is_a_mine: false, is_flagged: false, number: None, coordinates }
    }

    pub open spec fn fresh(coordinates: Coordinate) -> Tile {
        Tile { is_revealed: false, is_a_mine: false, is_flagged: false, number: None, coordinates }
    }
}

} // verus!
