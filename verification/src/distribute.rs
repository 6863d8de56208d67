//! Laying the mines: drawing the tokens for the scan that picks the tiles,
//! and the passes over the grid that mark them and set the numbers.

use vstd::prelude::*;
use std::collections::hash_map::DefaultHasher;
use crate::board::{Board, GameState, Pos};
use crate::game::{GameContainer, GameError};
use crate::placement::{lemma_layout_fits, lemma_placed_wf};
use crate::scanner::{comes_before, grid_shaped, marked, Progress, Scanner};
use crate::tile::{Coordinate, Tile};
use crate::tokens::{drawn, next_token, seed_state};
use crate::uncover::{lemma_after_reveal_wf, lemma_reveal_keeps_mines};

verus! {

impl Board {
    /// The board with the tile at each position `p` replaced by `f(p)`.
    pub open spec fn remade(self, f: spec_fn(Pos) -> Tile) -> Board {
        Board {
            tiles: Seq::new(
                self.cols as nat,
                |x: int| Seq::new(self.rows as nat, |y: int| f((x, y))),
            ),
            ..self
        }
    }

    /// The board with the tiles before column `x`, row `y` replaced.
    pub open spec fn remade_before(self, f: spec_fn(Pos) -> Tile, x: int, y: int) -> Board {
        Board {
            tiles: Seq::new(
                self.cols as nat,
                |i: int|
                    Seq::new(
                        self.rows as nat,
                        |j: int|
                            if comes_before((i, j), x, y) {
                                f((i, j))
                            } else {
                                self.tiles[i][j]
                            },
                    ),
            ),
            ..self
        }
    }

    /// The tile at `p` once the mines lie on `mines`.
    pub open spec fn mined_tile(self, mines: Set<Pos>, p: Pos) -> Tile {
        Tile { is_a_mine: mines.contains(p), ..self.at(p) }
    }

    /// The tile at `p` with the number its mines call for.
    pub open spec fn numbered_tile(self, p: Pos) -> Tile {
        Tile { number: self.expected_number(p), ..self.at(p) }
    }

    pub open spec fn mined_tiles(self, mines: Set<Pos>) -> spec_fn(Pos) -> Tile {
        |p: Pos| self.mined_tile(mines, p)
    }

    pub open spec fn numbered_tiles(self) -> spec_fn(Pos) -> Tile {
        |p: Pos| self.numbered_tile(p)
    }
}

/// Before the first tile nothing is replaced.
pub proof fn lemma_remade_none(b: Board, f: spec_fn(Pos) -> Tile)
    requires
        b.shape_ok(),
    ensures
        b.remade_before(f, 0, 0) == b,
{
    let n = b.remade_before(f, 0, 0);
    assert forall|x: int| 0 <= x < b.cols implies #[trigger] n.tiles[x] =~= b.tiles[x] by {
        assert(b.tiles[x].len() == b.rows);
    }
    assert(n.tiles =~= b.tiles);
}

/// Replacing the tile under the pass moves the pass on by one tile.
pub proof fn lemma_remade_step(b: Board, f: spec_fn(Pos) -> Tile, x: int, y: int)
    requires
        b.shape_ok(),
        b.in_bounds((x, y)),
        forall|p: Pos| b.in_bounds(p) ==> (#[trigger] f(p)).coordinates == b.at(p).coordinates,
    ensures
        b.remade_before(f, x, y).shape_ok(),
        b.remade_before(f, x, y).at((x, y)) == b.at((x, y)),
        b.remade_before(f, x, y).with_tile((x, y), f((x, y))) == b.remade_before(f, x, y + 1),
        y + 1 == b.rows ==> b.remade_before(f, x, y + 1) == b.remade_before(f, x + 1, 0),
        x + 1 == b.cols && y + 1 == b.rows ==> b.remade_before(f, x, y + 1) == b.remade(f),
{
    let cur = b.remade_before(f, x, y);
    let next = b.remade_before(f, x, y + 1);
    let stepped = cur.with_tile((x, y), f((x, y)));
    assert(b.tiles[x].len() == b.rows);
    assert forall|c: Pos| cur.in_bounds(c) implies (#[trigger] cur.at(c)).coordinates.pos()
        == c by {
        assert(b.tiles[c.0].len() == b.rows);
        assert(b.at(c).coordinates.pos() == c);
        assert(f(c).coordinates == b.at(c).coordinates);
    }
    assert forall|i: int| 0 <= i < b.cols implies #[trigger] stepped.tiles[i] =~= next.tiles[i] by {
        assert(b.tiles[i].len() == b.rows);
    }
    assert(stepped.tiles =~= next.tiles);
    if y + 1 == b.rows {
        let wrapped = b.remade_before(f, x + 1, 0);
        assert forall|i: int| 0 <= i < b.cols implies #[trigger] next.tiles[i]
            =~= wrapped.tiles[i] by {
            assert(b.tiles[i].len() == b.rows);
        }
        assert(next.tiles =~= wrapped.tiles);
        if x + 1 == b.cols {
            let all = b.remade(f);
            assert forall|i: int| 0 <= i < b.cols implies #[trigger] next.tiles[i]
                =~= all.tiles[i] by {
                assert(b.tiles[i].len() == b.rows);
            }
            assert(next.tiles =~= all.tiles);
        }
    }
}

/// Laying mines is replacing each tile by its mined tile, and numbering is
/// replacing each tile by its numbered tile.
pub proof fn lemma_remade_forms(b: Board, mines: Set<Pos>)
    requires
        b.shape_ok(),
    ensures
        b.mined(mines) == b.remade(b.mined_tiles(mines)),
        b.numbered() == b.remade(b.numbered_tiles()),
{
    let m = b.remade(b.mined_tiles(mines));
    assert forall|i: int| 0 <= i < b.cols implies #[trigger] m.tiles[i] =~= b.mined(
        mines,
    ).tiles[i] by {}
    assert(m.tiles =~= b.mined(mines).tiles);
    let n = b.remade(b.numbered_tiles());
    assert forall|i: int| 0 <= i < b.cols implies #[trigger] n.tiles[i] =~= b.numbered().tiles[i] by {}
    assert(n.tiles =~= b.numbered().tiles);
}

/// Laying mines leaves the grid in shape.
pub proof fn lemma_mined_shape(b: Board, mines: Set<Pos>)
    requires
        b.shape_ok(),
    ensures
        b.mined(mines).shape_ok(),
{
    let m = b.mined(mines);
    assert forall|c: Pos| m.in_bounds(c) implies (#[trigger] m.at(c)).coordinates.pos() == c by {
        assert(b.tiles[c.0].len() == b.rows);
        assert(b.at(c).coordinates.pos() == c);
    }
}

/// While the numbers are being set the mines lie where they lay.
pub proof fn lemma_numbering_keeps_mines(b: Board, cur: Board, x: int, y: int)
    requires
        b.shape_ok(),
        cur == b.remade_before(b.numbered_tiles(), x, y),
    ensures
        cur.mines() == b.mines(),
        forall|c: Pos|
            b.in_bounds(c) ==> #[trigger] cur.expected_number(c) == b.expected_number(c),
{
    assert forall|c: Pos| b.in_bounds(c) implies cur.at(c).is_a_mine == b.at(c).is_a_mine by {
        assert(b.tiles[c.0].len() == b.rows);
    }
    assert(cur.mines() =~= b.mines());
    assert forall|c: Pos| b.in_bounds(c) implies #[trigger] cur.expected_number(c)
        == b.expected_number(c) by {
        assert(cur.neighbors(c) == b.neighbors(c));
        assert(cur.at(c).is_a_mine == b.at(c).is_a_mine);
    }
}

impl GameContainer {
    /// Picks the tiles for the mines. The scan goes over the grid column by
    /// column, again and again, and is fed a token at each tile: of the
    /// seed where the game has one, else a random one. It stops with its
    /// last mine, or gives up after `MAX_SWEEPS` sweeps. Where too few
    /// tiles are eligible it does not start.
    pub(crate) fn scan_mines(&self, click: Coordinate) -> (r: Option<Vec<Vec<bool>>>)
        requires
            self@.shape_ok(),
        ensures
            match r {
                Some(grid) => {
                    &&& grid_shaped(grid@, self@.cols, self@.rows)
                    &&& self@.can_lay(click.pos(), marked(grid@, self@.cols, self@.rows))
                },
                None => self@.can_fail_to_lay(click.pos()),
            },
    {
        let ghost b = self@;
        let ghost at = click.pos();
        let seeded = self.seed().is_some();
        let mut scanner = match Scanner::new(
            self.rows(),
            self.cols(),
            self.mine_count(),
            seeded,
            click,
        ) {
            Ok(scanner) => scanner,
            Err(_) => {
                assert(b.cols * b.rows == b.rows * b.cols) by (nonlinear_arith);
                return None;
            },
        };
        if scanner.count_eligible() < self.mine_count() {
            return None;
        }
        let mut hasher = DefaultHasher::new();
        loop
            invariant
                b == self@,
                at == click.pos(),
                scanner.wf(),
                scanner@.ground == b.ground(),
                scanner@.click == at,
                scanner@.progress() == Progress::Going,
                drawn(b.seed, scanner@.tokens),
                b.seed is Some ==> hasher@ == seed_state(b.seed->0, scanner@.tokens.len()),
            decreases b.ground().max_draws() - scanner@.tokens.len(),
        {
            let token = next_token(&mut hasher, self.seed());
            match scanner.feed(token) {
                Progress::Going => {},
                Progress::Done => {
                    assert(b.lays_with(at, scanner@.laid(), scanner@.tokens));
                    return Some(scanner.into_grid());
                },
                Progress::GivenUp => {
                    assert(b.runs_out_with(at, scanner@.tokens));
                    return None;
                },
            }
        }
    }


    /// Marks the tiles that `grid` marks as mines, and no other.
    pub(crate) fn lay_mines(&mut self, grid: &Vec<Vec<bool>>)
        requires
            old(self)@.shape_ok(),
            grid_shaped(grid@, old(self)@.cols, old(self)@.rows),
        ensures
            final(self)@ == old(self)@.mined(marked(grid@, old(self)@.cols, old(self)@.rows)),
    {
        let cols = self.cols();
        let rows = self.rows();
        let ghost b = self@;
        let ghost mines = marked(grid@, b.cols, b.rows);
        let ghost f = b.mined_tiles(mines);
        proof {
            lemma_remade_none(b, f);
            lemma_remade_forms(b, mines);
        }
        let mut x: usize = 0;
        while x < cols
            invariant
                b.shape_ok(),
                cols == b.cols,
                rows == b.rows,
                grid_shaped(grid@, b.cols, b.rows),
                mines == marked(grid@, b.cols, b.rows),
                f == b.mined_tiles(mines),
                x <= cols,
                x < cols ==> self@ == b.remade_before(f, x as int, 0),
                x == cols ==> self@ == b.remade(f),
            decreases cols - x,
        {
            let mut y: usize = 0;
            while y < rows
                invariant
                    b.shape_ok(),
                    cols == b.cols,
                    rows == b.rows,
                    grid_shaped(grid@, b.cols, b.rows),
                    mines == marked(grid@, b.cols, b.rows),
                    f == b.mined_tiles(mines),
                    x < cols,
                    y <= rows,
                    y < rows ==> self@ == b.remade_before(f, x as int, y as int),
                    y == rows && x + 1 < cols ==> self@ == b.remade_before(f, x + 1, 0),
                    y == rows && x + 1 == cols ==> self@ == b.remade(f),
                decreases rows - y,
            {
                proof {
                    lemma_remade_step(b, f, x as int, y as int);
                }
                let t = self.tile(x, y);
                let mined = Tile { is_a_mine: grid[x][y], ..t };
                assert(mined == f((x as int, y as int)));
                self.put_tile(x, y, mined);
                y += 1;
            }
            x += 1;
        }
    }

    /// Gives the tile at `c` the number its mines call for: the count of
    /// the mines around it, or none on a mine and where no mine is around.
    pub(crate) fn set_tile_number(&mut self, c: Coordinate)
        requires
            old(self)@.shape_ok(),
            old(self)@.in_bounds(c.pos()),
        ensures
            final(self)@ == old(self)@.with_tile(c.pos(), old(self)@.numbered_tile(c.pos())),
    {
        let t = self.tile(c.x, c.y);
        let around = self.mines_around(c);
        let number = if t.is_a_mine || around == 0 {
            None
        } else {
            Some(around)
        };
        self.put_tile(c.x, c.y, Tile { number, ..t });
    }

    /// Sets the number of every tile.
    pub(crate) fn set_tile_numbers(&mut self)
        requires
            old(self)@.shape_ok(),
        ensures
            final(self)@ == old(self)@.numbered(),
    {
        let cols = self.cols();
        let rows = self.rows();
        let ghost b = self@;
        let ghost f = b.numbered_tiles();
        proof {
            lemma_remade_none(b, f);
            lemma_remade_forms(b, Set::empty());
        }
        let mut x: usize = 0;
        while x < cols
            invariant
                b.shape_ok(),
                cols == b.cols,
                rows == b.rows,
                f == b.numbered_tiles(),
                x <= cols,
                x < cols ==> self@ == b.remade_before(f, x as int, 0),
                x == cols ==> self@ == b.remade(f),
            decreases cols - x,
        {
            let mut y: usize = 0;
            while y < rows
                invariant
                    b.shape_ok(),
                    cols == b.cols,
                    rows == b.rows,
                    f == b.numbered_tiles(),
                    x < cols,
                    y <= rows,
                    y < rows ==> self@ == b.remade_before(f, x as int, y as int),
                    y == rows && x + 1 < cols ==> self@ == b.remade_before(f, x + 1, 0),
                    y == rows && x + 1 == cols ==> self@ == b.remade(f),
                decreases rows - y,
            {
                proof {
                    lemma_remade_step(b, f, x as int, y as int);
                    lemma_numbering_keeps_mines(b, self@, x as int, y as int);
                }
                let ghost cur = self@;
                assert(cur.numbered_tile((x as int, y as int)) == f((x as int, y as int))) by {
                    assert(cur.expected_number((x as int, y as int)) == b.expected_number(
                        (x as int, y as int),
                    ));
                }
                self.set_tile_number(Coordinate::new(x, y));
                y += 1;
            }
            x += 1;
        }
    }

    /// Lays the mines that `grid` marks, sets the numbers and begins play.
    pub(crate) fn begin_play(&mut self, grid: &Vec<Vec<bool>>)
        requires
            old(self)@.shape_ok(),
            grid_shaped(grid@, old(self)@.cols, old(self)@.rows),
        ensures
            final(self)@ == old(self)@.placed(marked(grid@, old(self)@.cols, old(self)@.rows)),
    {
        proof {
            lemma_mined_shape(self@, marked(grid@, self@.cols, self@.rows));
        }
        self.lay_mines(grid);
        self.set_tile_numbers();
        self.set_state(GameState::InProgress);
    }

    /// Lays the mines for a first reveal at `click`, sets the numbers and
    /// begins play; a seeded game then opens with a reveal of its first
    /// tile. Where the mines cannot be laid the game stays as it is.
    pub(crate) fn distribute_mines(&mut self, click: Coordinate) -> (r: Result<(), GameError>)
        requires
            old(self).wf(),
            old(self)@.state == GameState::NotStarted,
        ensures
            final(self).wf(),
            match r {
                Ok(()) => {
                    &&& old(self)@.can_lay(click.pos(), final(self)@.mines())
                    &&& final(self)@ == old(self)@.started(final(self)@.mines())
                    &&& final(self)@.state != GameState::NotStarted
                    &&& final(self)@.cols == old(self)@.cols
                    &&& final(self)@.rows == old(self)@.rows
                },
                Err(e) => {
                    &&& e == GameError::Unplaceable
                    &&& old(self)@.can_fail_to_lay(click.pos())
                    &&& final(self)@ == old(self)@
                },
            },
    {
        let ghost b = self@;
        match self.scan_mines(click) {
            None => Err(GameError::Unplaceable),
            Some(grid) => {
                let ghost mines = marked(grid@, b.cols, b.rows);
                proof {
                    lemma_layout_fits(b, click.pos(), mines);
                    lemma_placed_wf(b, mines);
                    lemma_after_reveal_wf(b.placed(mines), (0, 0));
                }
                self.begin_play(&grid);
                if self.seed().is_some() {
                    proof {
                        lemma_reveal_keeps_mines(b.placed(mines), (0, 0));
                    }
                    self.reveal_placed(Coordinate::default());
                }
                Ok(())
            },
        }
    }
}

} // verus!
