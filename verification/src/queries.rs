//! What a player may see of the game.

use vstd::prelude::*;
use crate::board::Board;
use crate::game::{GameContainer, GameError};
use crate::grid::lemma_sets_finite;
use crate::tile::{Coordinate, Tile};

verus! {

/// What a tile shows to the player.
#[derive(Copy, Clone, PartialEq, Eq, Debug, Structural)]
pub enum TileFace {
    /// Not revealed and not flagged.
    Hidden,
    /// Not revealed, with a flag on it.
    Flagged,
    /// Revealed, with no mine around it.
    Empty,
    /// Revealed, with this many mines around it.
    Number(u8),
    /// Revealed, and a mine: the one that ended the game.
    Mine,
}

/// The face of a tile: a flag hides everything else, a hidden tile shows
/// nothing, and a revealed tile shows its mine or its number.
pub open spec fn face_of(t: Tile) -> TileFace {
    if t.is_flagged {
        TileFace::Flagged
    } else if !t.is_revealed {
        TileFace::Hidden
    } else if t.is_a_mine {
        TileFace::Mine
    } else {
        match t.number {
            Some(n) => TileFace::Number(n),
            None => TileFace::Empty,
        }
    }
}

/// The place of a face on a sheet of sprites laid out in a row: the empty
/// tile first, then the hidden tile, the flag, and the numbers from one
/// on. A mine has no sprite of its own and takes that of the hidden tile.
pub open spec fn sprite_of(face: TileFace) -> int {
    match face {
        TileFace::Empty => 0,
        TileFace::Hidden => 1,
        TileFace::Flagged => 2,
        TileFace::Number(n) => 2 + n,
        TileFace::Mine => 1,
    }
}

impl TileFace {
    /// The place of this face on the sheet of sprites.
    pub fn sprite_index(&self) -> (i: u16)
        ensures
            i == sprite_of(*self),
    {
        match self {
            TileFace::Empty => 0,
            TileFace::Hidden => 1,
            TileFace::Flagged => 2,
            TileFace::Number(n) => 2 + *n as u16,
            TileFace::Mine => 1,
        }
    }
}

impl Board {
    /// The number of mines less the number of flags. It is negative where
    /// more flags stand than mines lie.
    pub open spec fn mines_remaining(self) -> int {
        self.mine_count - self.flagged_count
    }
}

impl Tile {
    /// What the tile shows to the player.
    pub fn face(&self) -> (f: TileFace)
        ensures
            f == face_of(*self),
    {
        if self.is_flagged {
            TileFace::Flagged
        } else if !self.is_revealed {
            TileFace::Hidden
        } else if self.is_a_mine {
            TileFace::Mine
        } else {
            match self.number {
                Some(n) => TileFace::Number(n),
                None => TileFace::Empty,
            }
        }
    }
}

impl GameContainer {
    /// The tile at `c`, or `OutOfBounds` where `c` lies off the grid.
    pub fn tile_at(&self, c: Coordinate) -> (r: Result<Tile, GameError>)
        requires
            self.wf(),
        ensures
            r == if self@.in_bounds(c.pos()) {
                Ok::<Tile, GameError>(self@.at(c.pos()))
            } else {
                Err::<Tile, GameError>(GameError::OutOfBounds)
            },
    {
        if !self.in_bounds(c) {
            return Err(GameError::OutOfBounds);
        }
        Ok(self.tile(c.x, c.y))
    }

    /// What the tile at `c` shows, or `OutOfBounds` where `c` lies off the
    /// grid.
    pub fn face_at(&self, c: Coordinate) -> (r: Result<TileFace, GameError>)
        requires
            self.wf(),
        ensures
            r == if self@.in_bounds(c.pos()) {
                Ok::<TileFace, GameError>(face_of(self@.at(c.pos())))
            } else {
                Err::<TileFace, GameError>(GameError::OutOfBounds)
            },
    {
        if !self.in_bounds(c) {
            return Err(GameError::OutOfBounds);
        }
        let t = self.tile(c.x, c.y);
        Ok(t.face())
    }

    /// The number of mines less the number of flags, as shown to the
    /// player.
    pub fn mines_remaining(&self) -> (n: isize)
        requires
            self.wf(),
        ensures
            n == self@.mines_remaining(),
    {
        proof {
            lemma_sets_finite(self@);
        }
        let mines = self.mine_count() as isize;
        mines - self.flagged_count()
    }
}

} // verus!
