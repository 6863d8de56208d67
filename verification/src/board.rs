//! The mathematical model of a game: a grid of tiles with its counters and
//! its state, and the moves of the game as functions from board to board.
//!
//! Everything here is ghost code. The executable game in `game` has a
//! `Board` as its view, and each of its operations is held to the matching
//! function of this module.

use vstd::prelude::*;
use crate::tile::Tile;

verus! {

/// A grid position as a pair of integers: column first, then row.
pub type Pos = (int, int);

/// Where a game stands. `Won` and `Lost` are final.
#[derive(Copy, Clone, PartialEq, Eq, Debug, Structural)]
pub enum GameState {
    NotStarted,
    InProgress,
    Won,
    Lost,
}

/// Two distinct positions that touch, by an edge or by a corner.
pub open spec fn adjacent(a: Pos, b: Pos) -> bool {
    a != b && -1 <= a.0 - b.0 <= 1 && -1 <= a.1 - b.1 <= 1
}

/// The eight positions around `c`, whether on a grid or not: left column
/// first, each column from top to bottom.
pub open spec fn surroundings(c: Pos) -> Seq<Pos> {
    seq![
        (c.0 - 1, c.1 - 1),
        (c.0 - 1, c.1),
        (c.0 - 1, c.1 + 1),
        (c.0, c.1 - 1),
        (c.0, c.1 + 1),
        (c.0 + 1, c.1 - 1),
        (c.0 + 1, c.1),
        (c.0 + 1, c.1 + 1),
    ]
}

/// Whether `c` lies on a grid of `cols` columns and `rows` rows.
pub open spec fn on_grid(cols: int, rows: int, c: Pos) -> bool {
    0 <= c.0 < cols && 0 <= c.1 < rows
}

/// The positions around `c` that lie on a grid of the given size, in the
/// order of `surroundings`.
pub open spec fn neighbors_on(cols: int, rows: int, c: Pos) -> Seq<Pos> {
    surroundings(c).filter(|p: Pos| on_grid(cols, rows, p))
}

/// The positions of `set` that touch `c`.
pub open spec fn touching(c: Pos, set: Set<Pos>) -> Set<Pos> {
    Set::new(|p: Pos| adjacent(c, p) && set.contains(p))
}

/// The model of a game.
pub struct Board {
    pub cols: int,
    pub rows: int,
    pub mine_count: int,
    pub seed: Option<Seq<char>>,
    pub state: GameState,
    /// The tiles, indexed by column, then row.
    pub tiles: Seq<Seq<Tile>>,
    pub revealed_count: int,
    pub flagged_count: int,
}

impl Board {
    pub open spec fn in_bounds(self, c: Pos) -> bool {
        on_grid(self.cols, self.rows, c)
    }

    pub open spec fn at(self, c: Pos) -> Tile {
        self.tiles[c.0][c.1]
    }

    /// Every position of the grid.
    pub open spec fn cells(self) -> Set<Pos> {
        Set::new(|c: Pos| self.in_bounds(c))
    }

    pub open spec fn mines(self) -> Set<Pos> {
        Set::new(|c: Pos| self.in_bounds(c) && self.at(c).is_a_mine)
    }

    pub open spec fn revealed(self) -> Set<Pos> {
        Set::new(|c: Pos| self.in_bounds(c) && self.at(c).is_revealed)
    }

    pub open spec fn flagged(self) -> Set<Pos> {
        Set::new(|c: Pos| self.in_bounds(c) && self.at(c).is_flagged)
    }

    /// The number of tiles that hold no mine.
    pub open spec fn safe_count(self) -> int {
        self.cols * self.rows - self.mine_count
    }

    pub open spec fn is_over(self) -> bool {
        self.state == GameState::Won || self.state == GameState::Lost
    }

    /// The tiles around `c`, in scan order.
    pub open spec fn neighbors(self, c: Pos) -> Seq<Pos> {
        neighbors_on(self.cols, self.rows, c)
    }

    /// The number of mines on the tiles around `c`.
    pub open spec fn mines_around(self, c: Pos) -> nat {
        touching(c, self.mines()).len()
    }

    /// The number of flags on the tiles around `c`.
    pub open spec fn flags_around(self, c: Pos) -> nat {
        touching(c, self.flagged()).len()
    }

    /// The number a tile shows once the mines lie: none on a mine and none
    /// where no mine is around, else the count of the mines around.
    pub open spec fn expected_number(self, c: Pos) -> Option<u8> {
        if self.at(c).is_a_mine || self.mines_around(c) == 0 {
            None
        } else {
            Some(self.mines_around(c) as u8)
        }
    }

    // ----- validity -----

    /// The grid has the size the board says, and each tile knows its place.
    pub open spec fn shape_ok(self) -> bool {
        &&& self.cols > 0
        &&& self.rows > 0
        &&& self.cols * self.rows <= isize::MAX
        &&& 0 < self.mine_count < self.cols * self.rows
        &&& self.tiles.len() == self.cols
        &&& forall|x: int| 0 <= x < self.cols ==> (#[trigger] self.tiles[x]).len() == self.rows
        &&& forall|c: Pos|
            self.in_bounds(c) ==> (#[trigger] self.at(c)).coordinates.pos() == c
    }

    /// Each tile shows the number that the mines around it call for.
    pub open spec fn numbers_ok(self) -> bool {
        forall|c: Pos|
            self.in_bounds(c) ==> (#[trigger] self.at(c)).number == self.expected_number(c)
    }

    /// Nothing has happened to the grid but flags.
    pub open spec fn untouched(self) -> bool {
        forall|c: Pos|
            self.in_bounds(c) ==> {
                &&& !(#[trigger] self.at(c)).is_a_mine
                &&& !self.at(c).is_revealed
                &&& self.at(c).number is None
            }
    }

    /// What holds of a board whatever its state: shape, counters, and no
    /// flag on a revealed tile.
    pub open spec fn grid_ok(self) -> bool {
        &&& self.shape_ok()
        &&& self.revealed_count == self.revealed().len()
        &&& self.flagged_count == self.flagged().len()
        &&& forall|c: Pos|
            self.in_bounds(c) ==> !((#[trigger] self.at(c)).is_revealed && self.at(c).is_flagged)
    }

    /// The mines lie, as many as the game asks for, and the numbers are set.
    pub open spec fn mines_ok(self) -> bool {
        &&& self.mines().len() == self.mine_count
        &&& self.numbers_ok()
    }

    /// The invariant of the game.
    pub open spec fn wf(self) -> bool {
        &&& self.grid_ok()
        &&& match self.state {
            GameState::NotStarted => self.untouched(),
            GameState::InProgress => {
                &&& self.mines_ok()
                &&& self.revealed().disjoint(self.mines())
                &&& self.revealed_count < self.safe_count()
            },
            GameState::Won => {
                &&& self.mines_ok()
                &&& self.revealed().disjoint(self.mines())
                &&& self.revealed_count == self.safe_count()
            },
            GameState::Lost => {
                &&& self.mines_ok()
                &&& self.revealed().intersect(self.mines()).len() == 1
            },
        }
    }

    // ----- flags -----

    /// The board with the tile at `c` replaced by `t`.
    pub open spec fn with_tile(self, c: Pos, t: Tile) -> Board {
        Board { tiles: self.tiles.update(c.0, self.tiles[c.0].update(c.1, t)), ..self }
    }

    /// Toggling the flag at `c`: nothing once the game is over, off the
    /// grid or on a revealed tile; else the flag flips and the counter
    /// follows.
    pub open spec fn after_toggle_flag(self, c: Pos) -> Board {
        if self.is_over() || !self.in_bounds(c) || self.at(c).is_revealed {
            self
        } else if self.at(c).is_flagged {
            Board {
                flagged_count: self.flagged_count - 1,
                ..self.with_tile(c, Tile { is_flagged: false, ..self.at(c) })
            }
        } else {
            Board {
                flagged_count: self.flagged_count + 1,
                ..self.with_tile(c, Tile { is_flagged: true, ..self.at(c) })
            }
        }
    }

    // ----- flood -----

    /// A tile that a reveal may open: on the grid, hidden, unflagged, no mine.
    pub open spec fn can_open(self, c: Pos) -> bool {
        &&& self.in_bounds(c)
        &&& !self.at(c).is_revealed
        &&& !self.at(c).is_flagged
        &&& !self.at(c).is_a_mine
    }

    /// A way the flood can take: every tile on it can be opened, each step
    /// goes to a touching tile, and every tile but the last shows no number.
    pub open spec fn flood_path(self, p: Seq<Pos>) -> bool {
        &&& p.len() > 0
        &&& forall|i: int| 0 <= i < p.len() ==> self.can_open(#[trigger] p[i])
        &&& forall|i: int|
            0 <= i < p.len() - 1 ==> (#[trigger] self.at(p[i])).number is None && adjacent(
                p[i],
                p[i + 1],
            )
    }

    pub open spec fn flood_reaches(self, from: Pos, to: Pos) -> bool {
        exists|p: Seq<Pos>| #[trigger] self.flood_path(p) && p[0] == from && p.last() == to
    }

    /// The tiles that a reveal at `from` opens: the connected region of
    /// openable tiles without a number around `from`, and the openable
    /// tiles that border it.
    pub open spec fn flood_region(self, from: Pos) -> Set<Pos> {
        Set::new(|c: Pos| self.flood_reaches(from, c))
    }

    /// The board with every tile of `region` revealed.
    pub open spec fn reveal_all(self, region: Set<Pos>) -> Board {
        Board {
            tiles: Seq::new(
                self.cols as nat,
                |x: int|
                    Seq::new(
                        self.rows as nat,
                        |y: int|
                            if region.contains((x, y)) {
                                Tile { is_revealed: true, ..self.tiles[x][y] }
                            } else {
                                self.tiles[x][y]
                            },
                    ),
            ),
            revealed_count: self.revealed_count + region.len(),
            ..self
        }
    }

    /// The state after the win check.
    pub open spec fn checked(self) -> Board {
        if self.state == GameState::InProgress && self.revealed_count == self.safe_count() {
            Board { state: GameState::Won, ..self }
        } else {
            self
        }
    }

    // ----- reveal -----

    /// Revealing the tile at `c` once the mines lie. Nothing happens unless
    /// the game is in progress and `c` is a hidden, unflagged tile of the
    /// grid. On a mine the game is lost, and only that tile is marked. Else
    /// the flood region of `c` is revealed and the game is won if no safe
    /// tile is left hidden.
    pub open spec fn after_reveal(self, c: Pos) -> Board {
        if self.state != GameState::InProgress || !self.in_bounds(c) || self.at(c).is_revealed
            || self.at(c).is_flagged {
            self
        } else if self.at(c).is_a_mine {
            Board {
                state: GameState::Lost,
                revealed_count: self.revealed_count + 1,
                ..self.with_tile(c, Tile { is_revealed: true, ..self.at(c) })
            }
        } else {
            self.reveal_all(self.flood_region(c)).checked()
        }
    }

    /// Revealing the tiles of `s` one after the other.
    pub open spec fn after_reveals(self, s: Seq<Pos>) -> Board
        decreases s.len(),
    {
        if s.len() == 0 {
            self
        } else {
            self.after_reveals(s.drop_last()).after_reveal(s.last())
        }
    }

    // ----- chord -----

    /// Whether a chord at `c` acts: the game is in progress, the tile is
    /// revealed and shows a number, and as many flags stand around it.
    pub open spec fn chord_applies(self, c: Pos) -> bool {
        &&& self.state == GameState::InProgress
        &&& self.in_bounds(c)
        &&& self.at(c).is_revealed
        &&& self.at(c).number == Some(self.flags_around(c) as u8)
    }

    /// A chord at `c`: where it acts, the tiles around `c` are revealed in
    /// scan order; else nothing happens.
    pub open spec fn after_chord(self, c: Pos) -> Board {
        if self.chord_applies(c) {
            self.after_reveals(self.neighbors(c))
        } else {
            self
        }
    }

    // ----- placement -----

    /// The board with mines on exactly the tiles of `mines`.
    pub open spec fn mined(self, mines: Set<Pos>) -> Board {
        Board {
            tiles: Seq::new(
                self.cols as nat,
                |x: int|
                    Seq::new(
                        self.rows as nat,
                        |y: int| Tile { is_a_mine: mines.contains((x, y)), ..self.tiles[x][y] },
                    ),
            ),
            ..self
        }
    }

    /// The board with each tile showing the number its mines call for.
    pub open spec fn numbered(self) -> Board {
        Board {
            tiles: Seq::new(
                self.cols as nat,
                |x: int|
                    Seq::new(
                        self.rows as nat,
                        |y: int| Tile { number: self.expected_number((x, y)), ..self.tiles[x][y] },
                    ),
            ),
            ..self
        }
    }

    /// The board once `mines` are laid and counted and play has begun.
    pub open spec fn placed(self, mines: Set<Pos>) -> Board {
        Board { state: GameState::InProgress, ..self.mined(mines).numbered() }
    }
}

} // verus!
