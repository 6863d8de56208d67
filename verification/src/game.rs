//! The executable game: the grid, its counters and its state, with the
//! board of `board` as its view.

use vstd::prelude::*;
use crate::board::{Board, GameState};
use crate::tile::{Coordinate, Tile};

verus! {

/// Why a game could not be made or a move was turned down.
#[derive(Copy, Clone, PartialEq, Eq, Debug, Structural)]
pub enum GameError {
    /// No rows, no columns, or more tiles than the machine can count.
    InvalidDimensions,
    /// No mine, or no tile left without one.
    InvalidMineCount,
    /// The coordinate lies off the grid.
    OutOfBounds,
    /// The mines could not be laid outside the safe zone.
    Unplaceable,
}

/// A game of minesweeper.
pub struct GameContainer {
    tile_array: Vec<Vec<Tile>>,
    tiles_revealed: usize,
    tiles_flagged: isize,
    game_rows: usize,
    game_cols: usize,
    game_seed: Option<String>,
    game_mines: usize,
    state: GameState,
}

/// Whether a game of this size with this many mines can be made.
pub open spec fn valid_dimensions(rows: int, cols: int) -> bool {
    rows > 0 && cols > 0 && rows * cols <= isize::MAX
}

pub open spec fn valid_mine_count(rows: int, cols: int, mines: int) -> bool {
    0 < mines < rows * cols
}

/// Whether a grid of this size can be made.
pub fn dimensions_ok(rows: usize, cols: usize) -> (r: bool)
    ensures
        r == valid_dimensions(rows as int, cols as int),
{
    if rows == 0 || cols == 0 {
        return false;
    }
    assert(rows * cols <= 0xffff_ffff_ffff_ffff * 0xffff_ffff_ffff_ffff) by (nonlinear_arith)
        requires
            rows <= 0xffff_ffff_ffff_ffff,
            cols <= 0xffff_ffff_ffff_ffff,
    ;
    let total: u128 = (rows as u128) * (cols as u128);
    total <= isize::MAX as u128
}

/// Whether a game of this size with this many mines can be made, and if
/// not, why not.
pub fn check_settings(rows: usize, cols: usize, mines: usize) -> (r: Result<(), GameError>)
    ensures
        match r {
            Ok(()) => {
                &&& valid_dimensions(rows as int, cols as int)
                &&& valid_mine_count(rows as int, cols as int, mines as int)
            },
            Err(e) => if !valid_dimensions(rows as int, cols as int) {
                e == GameError::InvalidDimensions
            } else {
                &&& !valid_mine_count(rows as int, cols as int, mines as int)
                &&& e == GameError::InvalidMineCount
            },
        },
{
    if !dimensions_ok(rows, cols) {
        return Err(GameError::InvalidDimensions);
    }
    if mines == 0 || mines >= rows * cols {
        return Err(GameError::InvalidMineCount);
    }
    Ok(())
}

/// The text of a seed, where there is one.
pub open spec fn seed_text(seed: Option<String>) -> Option<Seq<char>> {
    match seed {
        Some(s) => Some(s@),
        None => None,
    }
}

impl Board {
    /// The board of a new game: every tile fresh, no mine laid yet.
    pub open spec fn fresh(rows: int, cols: int, mines: int, seed: Option<Seq<char>>) -> Board {
        Board {
            cols,
            rows,
            mine_count: mines,
            seed,
            state: GameState::NotStarted,
            tiles: Seq::new(
                cols as nat,
                |x: int|
                    Seq::new(
                        rows as nat,
                        |y: int| Tile::fresh(Coordinate { x: x as usize, y: y as usize }),
                    ),
            ),
            revealed_count: 0,
            flagged_count: 0,
        }
    }
}

/// A new board is a valid one.
pub proof fn lemma_fresh_wf(rows: int, cols: int, mines: int, seed: Option<Seq<char>>)
    requires
        valid_dimensions(rows, cols),
        valid_mine_count(rows, cols, mines),
    ensures
        Board::fresh(rows, cols, mines, seed).wf(),
{
    let b = Board::fresh(rows, cols, mines, seed);
    assert(b.revealed() =~= Set::empty());
    assert(b.flagged() =~= Set::empty());
    assert(cols <= cols * rows && rows <= cols * rows) by (nonlinear_arith)
        requires
            cols >= 1,
            rows >= 1,
    ;
}

impl View for GameContainer {
    type V = Board;

    closed spec fn view(&self) -> Board {
        Board {
            cols: self.game_cols as int,
            rows: self.game_rows as int,
            mine_count: self.game_mines as int,
            seed: seed_text(self.game_seed),
            state: self.state,
            tiles: Seq::new(self.tile_array@.len(), |x: int| self.tile_array@[x]@),
            revealed_count: self.tiles_revealed as int,
            flagged_count: self.tiles_flagged as int,
        }
    }
}

impl GameContainer {
    /// The invariant of the game, which `new` sets up and every operation
    /// keeps.
    pub open spec fn wf(&self) -> bool {
        self@.wf()
    }

    /// A new game of `game_rows` by `game_cols` tiles with `game_mines`
    /// mines to lay. No mine is laid yet: that waits for the first reveal.
    /// With a seed the mines will lie where that seed puts them.
    pub fn new(
        game_rows: usize,
        game_cols: usize,
        game_mines: usize,
        game_seed: Option<String>,
    ) -> (r: Result<GameContainer, GameError>)
        ensures
            match r {
                Ok(g) => {
                    &&& valid_dimensions(game_rows as int, game_cols as int)
                    &&& valid_mine_count(game_rows as int, game_cols as int, game_mines as int)
                    &&& g@ == Board::fresh(
                        game_rows as int,
                        game_cols as int,
                        game_mines as int,
                        seed_text(game_seed),
                    )
                    &&& g.wf()
                },
                Err(e) => if !valid_dimensions(game_rows as int, game_cols as int) {
                    e == GameError::InvalidDimensions
                } else {
                    &&& !valid_mine_count(game_rows as int, game_cols as int, game_mines as int)
                    &&& e == GameError::InvalidMineCount
                },
            },
    {
        match check_settings(game_rows, game_cols, game_mines) {
            Err(e) => {
                return Err(e);
            },
            Ok(()) => {},
        }
        let mut tile_array: Vec<Vec<Tile>> = Vec::new();
        let mut x: usize = 0;
        while x < game_cols
            invariant
                x <= game_cols,
                tile_array@.len() == x,
                forall|i: int|
                    0 <= i < x ==> (#[trigger] tile_array@[i])@ =~= Seq::new(
                        game_rows as nat,
                        |y: int| Tile::fresh(Coordinate { x: i as usize, y: y as usize }),
                    ),
            decreases game_cols - x,
        {
            let mut column: Vec<Tile> = Vec::new();
            let mut y: usize = 0;
            while y < game_rows
                invariant
                    y <= game_rows,
                    column@.len() == y,
                    forall|j: int|
                        0 <= j < y ==> #[trigger] column@[j] == Tile::fresh(
                            Coordinate { x, y: j as usize },
                        ),
                decreases game_rows - y,
            {
                column.push(Tile::new(Coordinate::new(x, y)));
                y += 1;
            }
            tile_array.push(column);
            x += 1;
        }
        let g = GameContainer {
            tile_array,
            tiles_revealed: 0,
            tiles_flagged: 0,
            game_rows,
            game_cols,
            game_seed,
            game_mines,
            state: GameState::NotStarted,
        };
        proof {
            let fresh = Board::fresh(
                game_rows as int,
                game_cols as int,
                game_mines as int,
                seed_text(game_seed),
            );
            assert(g@.tiles =~= fresh.tiles);
            lemma_fresh_wf(
                game_rows as int,
                game_cols as int,
                game_mines as int,
                seed_text(game_seed),
            );
        }
        Ok(g)
    }

    pub fn rows(&self) -> (n: usize)
        ensures
            n == self@.rows,
    {
        self.game_rows
    }

    pub fn cols(&self) -> (n: usize)
        ensures
            n == self@.cols,
    {
        self.game_cols
    }

    pub fn mine_count(&self) -> (n: usize)
        ensures
            n == self@.mine_count,
    {
        self.game_mines
    }

    pub fn state(&self) -> (s: GameState)
        ensures
            s == self@.state,
    {
        self.state
    }

    /// Whether the mines lie yet. They are laid once, by the first reveal.
    pub fn mines_placed(&self) -> (r: bool)
        ensures
            r == (self@.state != GameState::NotStarted),
    {
        self.state != GameState::NotStarted
    }

    /// The number of revealed tiles.
    pub fn revealed_count(&self) -> (n: usize)
        ensures
            n == self@.revealed_count,
    {
        self.tiles_revealed
    }

    /// The number of flags on the grid.
    pub fn flagged_count(&self) -> (n: isize)
        ensures
            n == self@.flagged_count,
    {
        self.tiles_flagged
    }

    /// The seed of a seeded game.
    pub fn seed(&self) -> (s: &Option<String>)
        ensures
            seed_text(*s) == self@.seed,
    {
        &self.game_seed
    }

    /// The grid, indexed by column, then row.
    pub fn tile_array(&self) -> (t: &Vec<Vec<Tile>>)
        ensures
            t@.len() == self@.tiles.len(),
            forall|x: int| 0 <= x < t@.len() ==> (#[trigger] t@[x])@ == self@.tiles[x],
    {
        &self.tile_array
    }

    /// The tile at column `x`, row `y`.
    pub(crate) fn tile(&self, x: usize, y: usize) -> (t: Tile)
        requires
            self@.shape_ok(),
            self@.in_bounds((x as int, y as int)),
        ensures
            t == self@.at((x as int, y as int)),
    {
        assert(self@.tiles[x as int].len() == self@.rows);
        self.tile_array[x][y]
    }

    pub(crate) fn put_tile(&mut self, x: usize, y: usize, t: Tile)
        requires
            old(self)@.shape_ok(),
            old(self)@.in_bounds((x as int, y as int)),
        ensures
            final(self)@ == old(self)@.with_tile((x as int, y as int), t),
    {
        assert(self@.tiles[x as int].len() == self@.rows);
        self.tile_array[x][y] = t;
        assert(self@.tiles =~= old(self)@.with_tile((x as int, y as int), t).tiles);
    }

    pub(crate) fn set_state(&mut self, state: GameState)
        ensures
            final(self)@ == (Board { state, ..old(self)@ }),
    {
        self.state = state;
    }

    pub(crate) fn set_revealed_count(&mut self, n: usize)
        ensures
            final(self)@ == (Board { revealed_count: n as int, ..old(self)@ }),
    {
        self.tiles_revealed = n;
    }

    pub(crate) fn set_flagged_count(&mut self, n: isize)
        ensures
            final(self)@ == (Board { flagged_count: n as int, ..old(self)@ }),
    {
        self.tiles_flagged = n;
    }
}

} // verus!
