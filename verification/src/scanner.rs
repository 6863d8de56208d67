//! The scan that picks the tiles for the mines, fed one token at a time.
//!
//! A scanner does not know where its tokens come from. The game feeds it
//! tokens of its seed or random ones; fed the same tokens it lays the same
//! mines.

use vstd::prelude::*;
use crate::board::{on_grid, Pos};
use crate::game::{check_settings, valid_dimensions, valid_mine_count, GameError};
use crate::grid::{grid_cells, lemma_grid_cells};
use crate::placement::{lemma_scan_push, lemma_scan_sound, Ground, MAX_SWEEPS};
use crate::tile::Coordinate;
use crate::tokens::becomes_mine;

verus! {

/// How far a scan has come.
#[derive(Copy, Clone, PartialEq, Eq, Debug, Structural)]
pub enum Progress {
    /// Mines are still to be laid and sweeps are left.
    Going,
    /// The last mine is laid.
    Done,
    /// The sweeps ran out before the last mine was laid.
    GivenUp,
}

/// A grid of marks has the size of a game's grid.
pub open spec fn grid_shaped(grid: Seq<Vec<bool>>, cols: int, rows: int) -> bool {
    &&& grid.len() == cols
    &&& forall|x: int| 0 <= x < cols ==> (#[trigger] grid[x])@.len() == rows
}

/// The positions that a grid of marks marks.
pub open spec fn marked(grid: Seq<Vec<bool>>, cols: int, rows: int) -> Set<Pos> {
    Set::new(|p: Pos| on_grid(cols, rows, p) && grid[p.0]@[p.1])
}

/// Whether `p` comes before column `x`, row `y` in scan order.
pub open spec fn comes_before(p: Pos, x: int, y: int) -> bool {
    p.0 < x || (p.0 == x && p.1 < y)
}

impl Ground {
    /// The eligible tiles that the scan meets before column `x`, row `y`.
    pub open spec fn eligible_before(self, click: Pos, x: int, y: int) -> Set<Pos> {
        Set::new(|p: Pos| self.eligible(click, p) && comes_before(p, x, y))
    }
}

/// What a scanner stands for: the ground it works on, the tile of the
/// first reveal, and the tokens it has been fed.
pub struct ScannerView {
    pub ground: Ground,
    pub click: Pos,
    pub tokens: Seq<u64>,
}

impl ScannerView {
    /// The mines laid so far.
    pub open spec fn laid(self) -> Set<Pos> {
        self.ground.scan(self.click, self.tokens).mines
    }

    /// How far the scan has come: done once all mines are laid, given up
    /// once the tokens of the last sweep are used up, else going.
    pub open spec fn progress(self) -> Progress {
        if self.laid().len() >= self.ground.mine_count {
            Progress::Done
        } else if self.tokens.len() >= self.ground.max_draws() {
            Progress::GivenUp
        } else {
            Progress::Going
        }
    }
}

/// A scan in progress.
pub struct Scanner {
    cols: usize,
    rows: usize,
    wanted: usize,
    seeded: bool,
    click: Coordinate,
    grid: Vec<Vec<bool>>,
    laid: usize,
    x: usize,
    y: usize,
    sweeps: usize,
    tokens: Ghost<Seq<u64>>,
}

impl View for Scanner {
    type V = ScannerView;

    closed spec fn view(&self) -> ScannerView {
        ScannerView {
            ground: Ground {
                cols: self.cols as int,
                rows: self.rows as int,
                mine_count: self.wanted as int,
                seeded: self.seeded,
            },
            click: self.click.pos(),
            tokens: self.tokens@,
        }
    }
}

/// A grid of `cols` by `rows` marks, none of them set.
pub(crate) fn blank_grid(cols: usize, rows: usize) -> (grid: Vec<Vec<bool>>)
    ensures
        grid_shaped(grid@, cols as int, rows as int),
        marked(grid@, cols as int, rows as int) == Set::<Pos>::empty(),
{
    let mut grid: Vec<Vec<bool>> = Vec::new();
    let mut x: usize = 0;
    while x < cols
        invariant
            x <= cols,
            grid@.len() == x,
            forall|i: int| 0 <= i < x ==> (#[trigger] grid@[i])@.len() == rows,
            forall|i: int, j: int| 0 <= i < x && 0 <= j < rows ==> !(#[trigger] grid@[i]@[j]),
        decreases cols - x,
    {
        let mut column: Vec<bool> = Vec::new();
        let mut y: usize = 0;
        while y < rows
            invariant
                y <= rows,
                column@.len() == y,
                forall|j: int| 0 <= j < y ==> !(#[trigger] column@[j]),
            decreases rows - y,
        {
            column.push(false);
            y += 1;
        }
        grid.push(column);
        x += 1;
    }
    assert(marked(grid@, cols as int, rows as int) =~= Set::<Pos>::empty());
    grid
}

impl Scanner {
    /// The invariant of a scan: it stands where its tokens have taken it.
    pub closed spec fn wf(&self) -> bool {
        let g = self@.ground;
        let s = g.scan(self@.click, self@.tokens);
        &&& g.wf()
        &&& self.x < self.cols
        &&& self.y < self.rows
        &&& self.sweeps <= MAX_SWEEPS
        &&& grid_shaped(self.grid@, g.cols, g.rows)
        &&& marked(self.grid@, g.cols, g.rows) == s.mines
        &&& s.at == (self.x as int, self.y as int)
        &&& self.laid == s.mines.len()
        &&& self.laid <= self.wanted
        &&& self.tokens@.len() == self.sweeps * (g.cols * g.rows) + self.x * g.rows + self.y
        &&& self.sweeps == MAX_SWEEPS ==> self.x == 0 && self.y == 0
        &&& self.laid == self.wanted ==> g.lays(self@.click, self@.tokens)
    }

    /// A scan that has used no token yet, for a game of the given size and
    /// number of mines whose first reveal is at `click`. The settings must
    /// be such as a game takes, and fail as they do for a game.
    pub fn new(rows: usize, cols: usize, mines: usize, seeded: bool, click: Coordinate) -> (r:
        Result<Scanner, GameError>)
        ensures
            match r {
                Ok(s) => {
                    &&& s.wf()
                    &&& s@ == (ScannerView {
                        ground: Ground {
                            cols: cols as int,
                            rows: rows as int,
                            mine_count: mines as int,
                            seeded,
                        },
                        click: click.pos(),
                        tokens: Seq::empty(),
                    })
                    &&& s@.progress() == Progress::Going
                },
                Err(e) => if !valid_dimensions(rows as int, cols as int) {
                    e == GameError::InvalidDimensions
                } else {
                    &&& !valid_mine_count(rows as int, cols as int, mines as int)
                    &&& e == GameError::InvalidMineCount
                },
            },
    {
        match check_settings(rows, cols, mines) {
            Err(e) => Err(e),
            Ok(()) => {
                let grid = blank_grid(cols, rows);
                let s = Scanner {
                    cols,
                    rows,
                    wanted: mines,
                    seeded,
                    click,
                    grid,
                    laid: 0,
                    x: 0,
                    y: 0,
                    sweeps: 0,
                    tokens: Ghost(Seq::empty()),
                };
                proof {
                    assert(cols * rows == rows * cols) by (nonlinear_arith);
                    assert(0 * (cols * rows) + 0 * rows + 0 == 0) by (nonlinear_arith);
                    assert(MAX_SWEEPS * (cols * rows) > 0) by (nonlinear_arith)
                        requires
                            cols * rows > 0,
                    ;
                }
                Ok(s)
            },
        }
    }

    /// How far the scan has come.
    pub fn progress(&self) -> (p: Progress)
        requires
            self.wf(),
        ensures
            p == self@.progress(),
            p == Progress::Done ==> self@.ground.lays(self@.click, self@.tokens),
            p == Progress::GivenUp ==> self@.tokens.len() == self@.ground.max_draws(),
    {
        proof {
            self.lemma_drawn_so_far();
        }
        if self.laid == self.wanted {
            Progress::Done
        } else if self.sweeps == MAX_SWEEPS {
            Progress::GivenUp
        } else {
            Progress::Going
        }
    }

    /// The tokens fed so far are no more than a placement may draw, and
    /// they are as many exactly when the last sweep is over.
    proof fn lemma_drawn_so_far(&self)
        requires
            self.wf(),
        ensures
            self@.tokens.len() <= self@.ground.max_draws(),
            self.sweeps == MAX_SWEEPS <==> self@.tokens.len() == self@.ground.max_draws(),
    {
        let cells = self.cols * self.rows;
        assert(self.x * self.rows + self.y < cells && self.sweeps * cells + cells <= MAX_SWEEPS
            * cells || self.sweeps == MAX_SWEEPS) by (nonlinear_arith)
            requires
                self.x < self.cols,
                self.y < self.rows,
                self.sweeps <= MAX_SWEEPS,
                cells == self.cols * self.rows,
        ;
        if self.sweeps == MAX_SWEEPS {
            assert(0 * self.rows == 0) by (nonlinear_arith);
        }
    }

    /// Whether a mine may go to the tile at `c`.
    pub fn eligible(&self, c: Coordinate) -> (r: bool)
        ensures
            r == self@.ground.eligible(self@.click, c.pos()),
    {
        if c.x >= self.cols || c.y >= self.rows {
            false
        } else if self.seeded {
            c.x > 1 && c.y > 1
        } else {
            let dx = if c.x > self.click.x {
                c.x - self.click.x
            } else {
                self.click.x - c.x
            };
            let dy = if c.y > self.click.y {
                c.y - self.click.y
            } else {
                self.click.y - c.y
            };
            !(dx < 2 && dy < 2)
        }
    }

    /// The number of tiles that may hold a mine.
    pub fn count_eligible(&self) -> (n: usize)
        requires
            self.wf(),
        ensures
            n == self@.ground.eligible_cells(self@.click).len(),
    {
        let ghost g = self@.ground;
        let ghost at = self@.click;
        let ghost all = grid_cells(g.cols, g.rows);
        let mut n: usize = 0;
        let mut x: usize = 0;
        proof {
            assert(g.eligible_before(at, 0, 0) =~= Set::empty());
            lemma_grid_cells(g.cols, g.rows);
        }
        while x < self.cols
            invariant
                self.wf(),
                g == self@.ground,
                at == self@.click,
                all == grid_cells(g.cols, g.rows),
                all.finite(),
                all.len() == g.cols * g.rows,
                x <= self.cols,
                n == g.eligible_before(at, x as int, 0).len(),
            decreases self.cols - x,
        {
            let mut y: usize = 0;
            while y < self.rows
                invariant
                    self.wf(),
                    g == self@.ground,
                    at == self@.click,
                    all == grid_cells(g.cols, g.rows),
                    all.finite(),
                    all.len() == g.cols * g.rows,
                    x < self.cols,
                    y <= self.rows,
                    n == g.eligible_before(at, x as int, y as int).len(),
                decreases self.rows - y,
            {
                let ghost seen = g.eligible_before(at, x as int, y as int);
                if self.eligible(Coordinate::new(x, y)) {
                    proof {
                        let here = (x as int, y as int);
                        assert(seen.insert(here).subset_of(all));
                        vstd::set_lib::lemma_len_subset(seen.insert(here), all);
                        vstd::set_lib::lemma_len_subset(seen, all);
                        assert(g.eligible_before(at, x as int, y + 1) =~= seen.insert(here));
                    }
                    n += 1;
                } else {
                    assert(g.eligible_before(at, x as int, y + 1) =~= seen);
                }
                y += 1;
            }
            assert(g.eligible_before(at, x as int, self.rows as int) =~= g.eligible_before(
                at,
                x + 1,
                0,
            ));
            x += 1;
        }
        assert(g.eligible_before(at, self.cols as int, 0) =~= g.eligible_cells(at));
        n
    }

    /// Whether the scan has laid a mine on the tile at `c`.
    pub fn holds_mine(&self, c: Coordinate) -> (r: bool)
        requires
            self.wf(),
        ensures
            r == self@.laid().contains(c.pos()),
    {
        if c.x < self.cols && c.y < self.rows {
            assert(self.grid@[c.x as int]@.len() == self.rows);
            self.grid[c.x][c.y]
        } else {
            proof {
                lemma_scan_sound(self@.ground, self@.click, self@.tokens);
            }
            false
        }
    }

    /// Feeds the scan its next token. While the scan is going, the tile
    /// under it becomes a mine if the token asks for one, none lies there
    /// yet and the tile is eligible, and the scan moves on to the next
    /// tile. A scan that is done or given up takes no more tokens and stays
    /// as it is.
    pub fn feed(&mut self, token: u64) -> (p: Progress)
        requires
            old(self).wf(),
        ensures
            final(self).wf(),
            final(self)@ == (ScannerView {
                tokens: if old(self)@.progress() == Progress::Going {
                    old(self)@.tokens.push(token)
                } else {
                    old(self)@.tokens
                },
                ..old(self)@
            }),
            p == final(self)@.progress(),
            p == Progress::Done ==> final(self)@.ground.lays(final(self)@.click, final(self)@.tokens),
            p == Progress::GivenUp ==> final(self)@.tokens.len() == final(self)@.ground.max_draws(),
    {
        let before = self.progress();
        if before != Progress::Going {
            return before;
        }
        let ghost g = self@.ground;
        let ghost at = self@.click;
        let ghost cells = g.cols * g.rows;
        let ghost fed = self.tokens@;
        let ghost old_grid = self.grid@;
        proof {
            lemma_scan_push(g, at, fed, token);
            lemma_scan_sound(g, at, fed);
            assert(fed.push(token).drop_last() =~= fed);
            assert(self.x * self.rows + self.y + 1 <= cells && (self.x + 1) * self.rows == self.x
                * self.rows + self.rows && (self.sweeps + 1) * cells == self.sweeps * cells
                + cells && self.sweeps * cells + cells <= MAX_SWEEPS * cells && 0 * self.rows
                == 0) by (nonlinear_arith)
                requires
                    self.x < self.cols,
                    self.y < self.rows,
                    self.sweeps < MAX_SWEEPS,
                    cells == self.cols * self.rows,
            ;
            assert(grid_cells(g.cols, g.rows).len() == cells) by {
                lemma_grid_cells(g.cols, g.rows);
            }
        }
        let here = Coordinate::new(self.x, self.y);
        let already = self.grid[self.x][self.y];
        let eligible = self.eligible(here);
        self.tokens = Ghost(fed.push(token));
        if becomes_mine(token, already, eligible) {
            self.grid[self.x][self.y] = true;
            proof {
                assert(marked(self.grid@, g.cols, g.rows) =~= marked(old_grid, g.cols, g.rows).insert(
                    here.pos(),
                ));
            }
            self.laid += 1;
        } else {
            assert(marked(self.grid@, g.cols, g.rows) =~= marked(old_grid, g.cols, g.rows));
        }
        self.y += 1;
        if self.y == self.rows {
            self.y = 0;
            self.x += 1;
            if self.x == self.cols {
                self.x = 0;
                self.sweeps += 1;
            }
        }
        self.progress()
    }

    /// The marks of the mines laid, as a grid.
    pub(crate) fn into_grid(self) -> (grid: Vec<Vec<bool>>)
        requires
            self.wf(),
        ensures
            grid_shaped(grid@, self@.ground.cols, self@.ground.rows),
            marked(grid@, self@.ground.cols, self@.ground.rows) == self@.laid(),
    {
        self.grid
    }
}

} // verus!
