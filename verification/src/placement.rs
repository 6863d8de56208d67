//! Where the mines go: the scan over the grid that lays them, token by
//! token, and what is true of every layout it can produce.
//!
//! The scan is no uniform sampling. It visits the tiles in a fixed order,
//! again and again, and lays a mine where the token drawn at a tile falls
//! into one class of remainders. With a seed the tokens come from a hasher
//! that is fed the seed once more for each draw, so the layout is the same
//! whenever the seed is.

use vstd::prelude::*;
use vstd::set_lib::lemma_len_subset;
use crate::board::{on_grid, Board, GameState, Pos};
use crate::grid::{grid_cells, lemma_grid_cells};
use crate::tile::Tile;
use crate::tokens::{drawn, token_hits};

verus! {

/// The most sweeps over the whole grid that a placement may take. A
/// placement that has not laid all its mines by then is given up. The
/// number is a choice: a tile that can take a mine is passed over in
/// every one of so many sweeps with a chance of less than one in ten to
/// the power of thirty.
pub const MAX_SWEEPS: usize = 4096;

/// What a scan works on: the size of the grid, the number of mines to lay,
/// and whether the game has a seed.
pub struct Ground {
    pub cols: int,
    pub rows: int,
    pub mine_count: int,
    pub seeded: bool,
}

/// Where a scan stands: the mines laid so far and the tile it looks at next.
pub struct Scan {
    pub mines: Set<Pos>,
    pub at: Pos,
}

impl Ground {
    /// A ground that a game can be played on.
    pub open spec fn wf(self) -> bool {
        &&& self.cols > 0
        &&& self.rows > 0
        &&& self.cols * self.rows <= isize::MAX
        &&& 0 < self.mine_count < self.cols * self.rows
    }

    /// Whether a mine may go to `p` when the first reveal is at `click`.
    /// A seeded game keeps its two leftmost columns and its two top rows
    /// free, wherever the click is. A game without a seed keeps the clicked
    /// tile and the tiles around it free.
    pub open spec fn eligible(self, click: Pos, p: Pos) -> bool {
        &&& on_grid(self.cols, self.rows, p)
        &&& if self.seeded {
            p.0 > 1 && p.1 > 1
        } else {
            !(-2 < p.0 - click.0 < 2 && -2 < p.1 - click.1 < 2)
        }
    }

    pub open spec fn eligible_cells(self, click: Pos) -> Set<Pos> {
        Set::new(|p: Pos| self.eligible(click, p))
    }

    /// The tile the scan visits after `p`: down the column, then on to the
    /// top of the next column, and from the last tile back to the first.
    pub open spec fn next_pos(self, p: Pos) -> Pos {
        if p.1 + 1 < self.rows {
            (p.0, p.1 + 1)
        } else if p.0 + 1 < self.cols {
            (p.0 + 1, 0)
        } else {
            (0, 0)
        }
    }

    /// The most tokens a placement draws.
    pub open spec fn max_draws(self) -> int {
        MAX_SWEEPS * (self.cols * self.rows)
    }

    /// One step of the scan: the tile under it becomes a mine if the token
    /// asks for one, none lies there yet and the tile is eligible; then the
    /// scan moves on.
    pub open spec fn scan_step(self, click: Pos, s: Scan, token: u64) -> Scan {
        Scan {
            mines: if token_hits(token) && !s.mines.contains(s.at) && self.eligible(click, s.at) {
                s.mines.insert(s.at)
            } else {
                s.mines
            },
            at: self.next_pos(s.at),
        }
    }

    /// The scan after it has used up `tokens`, from the first tile on.
    pub open spec fn scan(self, click: Pos, tokens: Seq<u64>) -> Scan
        decreases tokens.len(),
    {
        if tokens.len() == 0 {
            Scan { mines: Set::empty(), at: (0, 0) }
        } else {
            self.scan_step(click, self.scan(click, tokens.drop_last()), tokens.last())
        }
    }

    /// Whether the scan lays its last mine with the last of `tokens`.
    pub open spec fn lays(self, click: Pos, tokens: Seq<u64>) -> bool {
        &&& tokens.len() > 0
        &&& self.scan(click, tokens).mines.len() == self.mine_count
        &&& self.scan(click, tokens.drop_last()).mines.len() < self.mine_count
    }
}

impl Board {
    /// What a scan for this board works on.
    pub open spec fn ground(self) -> Ground {
        Ground {
            cols: self.cols,
            rows: self.rows,
            mine_count: self.mine_count,
            seeded: self.seed is Some,
        }
    }

    /// Whether `tokens` are draws of this game that lay the layout `mines`
    /// for a first reveal at `click`.
    pub open spec fn lays_with(self, click: Pos, mines: Set<Pos>, tokens: Seq<u64>) -> bool {
        &&& drawn(self.seed, tokens)
        &&& tokens.len() <= self.ground().max_draws()
        &&& self.ground().lays(click, tokens)
        &&& mines == self.ground().scan(click, tokens).mines
    }

    /// Whether `mines` is a layout that the first reveal at `click` can
    /// produce: the one the scan lays with tokens this game can draw.
    pub open spec fn can_lay(self, click: Pos, mines: Set<Pos>) -> bool {
        exists|tokens: Seq<u64>| #[trigger] self.lays_with(click, mines, tokens)
    }

    /// Whether `tokens` are draws of this game that run out before the
    /// mines are laid.
    pub open spec fn runs_out_with(self, click: Pos, tokens: Seq<u64>) -> bool {
        &&& drawn(self.seed, tokens)
        &&& tokens.len() == self.ground().max_draws()
        &&& self.ground().scan(click, tokens).mines.len() < self.mine_count
    }

    /// Whether the first reveal at `click` can fail to lay the mines: too
    /// few tiles are eligible, or tokens this game can draw run out first.
    pub open spec fn can_fail_to_lay(self, click: Pos) -> bool {
        ||| self.ground().eligible_cells(click).len() < self.mine_count
        ||| exists|tokens: Seq<u64>| #[trigger] self.runs_out_with(click, tokens)
    }

    /// The board as play begins on the layout `mines`. A seeded game opens
    /// with a reveal of the first tile.
    pub open spec fn started(self, mines: Set<Pos>) -> Board {
        if self.seed is Some {
            self.placed(mines).after_reveal((0, 0))
        } else {
            self.placed(mines)
        }
    }
}

/// The scan with one more token.
pub proof fn lemma_scan_push(g: Ground, click: Pos, tokens: Seq<u64>, token: u64)
    ensures
        g.scan(click, tokens.push(token)) == g.scan_step(click, g.scan(click, tokens), token),
{
    assert(tokens.push(token).drop_last() =~= tokens);
}

/// The scan stays on the grid and lays mines on eligible tiles only.
pub proof fn lemma_scan_sound(g: Ground, click: Pos, tokens: Seq<u64>)
    requires
        g.cols > 0,
        g.rows > 0,
    ensures
        on_grid(g.cols, g.rows, g.scan(click, tokens).at),
        g.scan(click, tokens).mines.subset_of(g.eligible_cells(click)),
        g.scan(click, tokens).mines.subset_of(grid_cells(g.cols, g.rows)),
        g.scan(click, tokens).mines.finite(),
        g.scan(click, tokens).mines.len() <= tokens.len(),
        g.eligible_cells(click).finite(),
        g.scan(click, tokens).mines.len() <= g.eligible_cells(click).len(),
    decreases tokens.len(),
{
    if tokens.len() > 0 {
        lemma_scan_sound(g, click, tokens.drop_last());
    }
    lemma_grid_cells(g.cols, g.rows);
    assert(g.eligible_cells(click).subset_of(grid_cells(g.cols, g.rows)));
    lemma_len_subset(g.eligible_cells(click), grid_cells(g.cols, g.rows));
    lemma_len_subset(g.scan(click, tokens).mines, g.eligible_cells(click));
}

/// The mines of a scan stay where they are as the scan goes on.
pub proof fn lemma_scan_grows(g: Ground, click: Pos, tokens: Seq<u64>, k: int)
    requires
        g.cols > 0,
        g.rows > 0,
        0 <= k <= tokens.len(),
    ensures
        g.scan(click, tokens.take(k)).mines.subset_of(g.scan(click, tokens).mines),
        g.scan(click, tokens.take(k)).mines.len() <= g.scan(click, tokens).mines.len(),
    decreases tokens.len(),
{
    if k == tokens.len() {
        assert(tokens.take(k) =~= tokens);
    } else {
        let rest = tokens.drop_last();
        lemma_scan_grows(g, click, rest, k);
        assert(rest.take(k) =~= tokens.take(k));
    }
    lemma_scan_sound(g, click, tokens);
    lemma_len_subset(g.scan(click, tokens.take(k)).mines, g.scan(click, tokens).mines);
}

/// In a seeded game the scan does not depend on where the click is.
pub proof fn lemma_seeded_scan_ignores_click(g: Ground, click: Pos, other: Pos, tokens: Seq<u64>)
    requires
        g.seeded,
    ensures
        g.scan(click, tokens) == g.scan(other, tokens),
    decreases tokens.len(),
{
    if tokens.len() > 0 {
        lemma_seeded_scan_ignores_click(g, click, other, tokens.drop_last());
    }
}

/// The board with its mines laid is a valid game in progress.
pub proof fn lemma_placed_wf(b: Board, mines: Set<Pos>)
    requires
        b.wf(),
        b.state == GameState::NotStarted,
        mines.subset_of(b.cells()),
        mines.len() == b.mine_count,
    ensures
        b.placed(mines).wf(),
        b.placed(mines).state == GameState::InProgress,
        b.placed(mines).mines() == mines,
        b.placed(mines).flagged() == b.flagged(),
        b.placed(mines).revealed() == b.revealed(),
{
    let m = b.mined(mines);
    let p = b.placed(mines);
    assert forall|c: Pos| b.in_bounds(c) implies #[trigger] m.at(c) == (Tile {
        is_a_mine: mines.contains(c),
        ..b.at(c)
    }) by {
        assert(b.tiles[c.0].len() == b.rows);
    }
    assert forall|c: Pos| b.in_bounds(c) implies #[trigger] p.at(c) == (Tile {
        is_a_mine: mines.contains(c),
        number: m.expected_number(c),
        ..b.at(c)
    }) by {
        assert(m.tiles[c.0].len() == b.rows);
        assert(m.at(c).is_a_mine == mines.contains(c));
    }
    assert(m.mines() =~= mines);
    assert(p.mines() =~= mines);
    assert(p.flagged() =~= b.flagged()) by {
        assert forall|c: Pos| b.in_bounds(c) implies p.at(c).is_flagged == b.at(c).is_flagged by {}
    }
    assert(p.revealed() =~= b.revealed()) by {
        assert forall|c: Pos| b.in_bounds(c) implies p.at(c).is_revealed == b.at(
            c,
        ).is_revealed by {}
    }
    assert(b.revealed() =~= Set::empty()) by {
        assert forall|c: Pos| b.in_bounds(c) implies !b.at(c).is_revealed by {}
    }
    assert forall|c: Pos| p.in_bounds(c) implies (#[trigger] p.at(c)).coordinates.pos() == c by {
        assert(b.at(c).coordinates.pos() == c);
    }
    assert forall|c: Pos| p.in_bounds(c) implies !((#[trigger] p.at(c)).is_revealed && p.at(
        c,
    ).is_flagged) by {
        assert(!b.at(c).is_revealed);
    }
    assert forall|c: Pos| p.in_bounds(c) implies (#[trigger] p.at(c)).number == p.expected_number(
        c,
    ) by {
        assert(m.at(c).is_a_mine == mines.contains(c));
        assert(p.neighbors(c) == m.neighbors(c));
    }
    assert(p.revealed().disjoint(p.mines()));
}

/// A layout that a first reveal can produce lies on the grid and has as
/// many mines as the game asks for, so play can begin on it.
pub proof fn lemma_layout_fits(b: Board, click: Pos, mines: Set<Pos>)
    requires
        b.cols > 0,
        b.rows > 0,
        b.can_lay(click, mines),
    ensures
        mines.finite(),
        mines.len() == b.mine_count,
        mines.subset_of(b.cells()),
        mines.subset_of(b.ground().eligible_cells(click)),
{
    let tokens = choose|tokens: Seq<u64>| #[trigger] b.lays_with(click, mines, tokens);
    lemma_scan_sound(b.ground(), click, tokens);
    assert(b.cells() =~= grid_cells(b.cols, b.rows));
}

/// A game cannot lay more mines than it has eligible tiles.
pub proof fn law_too_few_eligible_tiles_fail(b: Board, click: Pos, mines: Set<Pos>)
    requires
        b.cols > 0,
        b.rows > 0,
        b.ground().eligible_cells(click).len() < b.mine_count,
    ensures
        !b.can_lay(click, mines),
{
    if b.can_lay(click, mines) {
        let tokens = choose|tokens: Seq<u64>| #[trigger] b.lays_with(click, mines, tokens);
        lemma_scan_sound(b.ground(), click, tokens);
    }
}

/// A seeded game lays its mines in one way only, wherever the first reveal
/// is.
pub proof fn law_seed_fixes_layout(
    b: Board,
    click: Pos,
    other: Pos,
    mines: Set<Pos>,
    others: Set<Pos>,
)
    requires
        b.cols > 0,
        b.rows > 0,
        b.seed is Some,
        b.can_lay(click, mines),
        b.can_lay(other, others),
    ensures
        mines == others,
{
    let g = b.ground();
    let t1 = choose|tokens: Seq<u64>| #[trigger] b.lays_with(click, mines, tokens);
    let t2 = choose|tokens: Seq<u64>| #[trigger] b.lays_with(other, others, tokens);
    lemma_seeded_scan_ignores_click(g, other, click, t2);
    lemma_seeded_scan_ignores_click(g, other, click, t2.drop_last());
    if t1.len() < t2.len() {
        let rest = t2.drop_last();
        assert(rest.take(t1.len() as int) =~= t1);
        lemma_scan_grows(g, click, rest, t1.len() as int);
    } else if t2.len() < t1.len() {
        let rest = t1.drop_last();
        assert(rest.take(t2.len() as int) =~= t2);
        lemma_scan_grows(g, click, rest, t2.len() as int);
    } else {
        assert(t1 =~= t2);
    }
}

/// In a seeded game the first reveal at a tile leads to one board only.
pub proof fn law_seed_fixes_first_reveal(b: Board, c: Pos, mines: Set<Pos>, others: Set<Pos>)
    requires
        b.cols > 0,
        b.rows > 0,
        b.seed is Some,
        b.can_lay(c, mines),
        b.can_lay(c, others),
    ensures
        b.started(mines).after_reveal(c) == b.started(others).after_reveal(c),
{
    law_seed_fixes_layout(b, c, c, mines, others);
}

/// A seeded game either lays its mines or fails to, never both.
pub proof fn law_seeded_outcome_is_settled(b: Board, click: Pos, mines: Set<Pos>)
    requires
        b.cols > 0,
        b.rows > 0,
        b.seed is Some,
        b.can_lay(click, mines),
    ensures
        !b.can_fail_to_lay(click),
{
    let g = b.ground();
    let t1 = choose|tokens: Seq<u64>| #[trigger] b.lays_with(click, mines, tokens);
    lemma_scan_sound(g, click, t1);
    assert forall|t2: Seq<u64>| #[trigger] b.runs_out_with(click, t2) implies false by {
        assert(t2.take(t1.len() as int) =~= t1);
        lemma_scan_grows(g, click, t2, t1.len() as int);
    }
}

} // verus!
