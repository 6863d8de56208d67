//! A game whose mines are given, not drawn: for puzzles and for trying the
//! rules on a known layout.

use vstd::prelude::*;
use crate::board::{on_grid, Board, Pos};
use crate::scanner::{blank_grid, grid_shaped, marked};
use crate::game::{
    dimensions_ok, valid_dimensions, valid_mine_count, GameContainer, GameError,
};
use crate::grid::{lemma_room_left, lemma_sets_finite};
use crate::neighbors::positions;
use crate::placement::lemma_placed_wf;
use crate::tile::Coordinate;

verus! {

/// Whether every coordinate of `mines` lies on a grid of this size.
pub open spec fn all_on_grid(rows: int, cols: int, mines: Seq<Coordinate>) -> bool {
    forall|i: int| 0 <= i < mines.len() ==> on_grid(cols, rows, #[trigger] mines[i].pos())
}

impl GameContainer {
    /// A game in progress on a grid of `game_rows` by `game_cols` with a
    /// mine on each tile that `mines` names, and on no other. A tile named
    /// twice holds one mine. The game has no seed and nothing is revealed.
    ///
    /// The size must be one that `new` takes, else `InvalidDimensions`;
    /// every coordinate must lie on the grid, else `OutOfBounds`; and at
    /// least one tile must hold a mine and one must hold none, else
    /// `InvalidMineCount`.
    pub fn with_mines(game_rows: usize, game_cols: usize, mines: &Vec<Coordinate>) -> (r: Result<
        GameContainer,
        GameError,
    >)
        ensures
            match r {
                Ok(g) => {
                    let laid = positions(mines@).to_set();
                    &&& valid_dimensions(game_rows as int, game_cols as int)
                    &&& all_on_grid(game_rows as int, game_cols as int, mines@)
                    &&& valid_mine_count(game_rows as int, game_cols as int, laid.len() as int)
                    &&& g@ == Board::fresh(
                        game_rows as int,
                        game_cols as int,
                        laid.len() as int,
                        None,
                    ).placed(laid)
                    &&& g@.mines() == laid
                    &&& g.wf()
                },
                Err(e) => if !valid_dimensions(game_rows as int, game_cols as int) {
                    e == GameError::InvalidDimensions
                } else if !all_on_grid(game_rows as int, game_cols as int, mines@) {
                    e == GameError::OutOfBounds
                } else {
                    &&& e == GameError::InvalidMineCount
                    &&& !valid_mine_count(
                        game_rows as int,
                        game_cols as int,
                        positions(mines@).to_set().len() as int,
                    )
                },
            },
    {
        if !dimensions_ok(game_rows, game_cols) {
            return Err(GameError::InvalidDimensions);
        }
        let ghost cols = game_cols as int;
        let ghost rows = game_rows as int;
        let ghost named = positions(mines@);
        let ghost shell = Board::fresh(rows, cols, 1, None);
        let mut grid = blank_grid(game_cols, game_rows);
        let mut count: usize = 0;
        let mut i: usize = 0;
        proof {
            assert(named.take(0).to_set() =~= Set::<Pos>::empty());
            lemma_sets_finite(shell);
            assert(cols * rows == rows * cols) by (nonlinear_arith);
        }
        while i < mines.len()
            invariant
                valid_dimensions(rows, cols),
                cols == game_cols,
                rows == game_rows,
                named == positions(mines@),
                shell == Board::fresh(rows, cols, 1, None),
                i <= mines@.len(),
                grid_shaped(grid@, cols, rows),
                marked(grid@, cols, rows) == named.take(i as int).to_set(),
                count == marked(grid@, cols, rows).len(),
                count <= cols * rows <= isize::MAX,
                forall|j: int|
                    0 <= j < i ==> on_grid(cols, rows, (#[trigger] mines@[j]).pos()),
            decreases mines@.len() - i,
        {
            let c = mines[i];
            if c.x >= game_cols || c.y >= game_rows {
                assert(!on_grid(cols, rows, mines@[i as int].pos()));
                return Err(GameError::OutOfBounds);
            }
            let ghost old_grid = grid@;
            proof {
                assert(named.take(i + 1) =~= named.take(i as int).push(c.pos()));
                named.take(i as int).lemma_push_to_set_commute(c.pos());
            }
            if !grid[c.x][c.y] {
                grid[c.x][c.y] = true;
                proof {
                    let before = marked(old_grid, cols, rows);
                    assert(marked(grid@, cols, rows) =~= before.insert(c.pos()));
                    assert(before.subset_of(shell.cells()));
                    lemma_room_left(shell, before, c.pos());
                }
                count += 1;
            } else {
                assert(marked(grid@, cols, rows) =~= marked(old_grid, cols, rows).insert(c.pos()));
            }
            i += 1;
        }
        assert(named.take(i as int) =~= named);
        let ghost laid = named.to_set();
        match GameContainer::new(game_rows, game_cols, count, None) {
            Err(e) => Err(e),
            Ok(mut g) => {
                let ghost b = g@;
                proof {
                    assert(laid.subset_of(b.cells()));
                    lemma_placed_wf(b, laid);
                }
                g.begin_play(&grid);
                Ok(g)
            },
        }
    }
}

} // verus!
