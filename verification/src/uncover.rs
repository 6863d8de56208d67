//! Revealing a tile once the mines lie: the flood, the loss on a mine and
//! the win check.

use vstd::prelude::*;
use vstd::set_lib::{lemma_len_subset, lemma_set_disjoint_lens};
use crate::board::{Board, GameState, Pos};
use crate::flood::{
    flood_inv, lemma_flood_inv_done, lemma_flood_inv_init, lemma_flood_inv_open,
    lemma_flood_inv_skip, lemma_flood_region_opens, lemma_reveal_all, lemma_reveal_none,
    lemma_reveal_one_more,
};
use crate::game::GameContainer;
use crate::grid::{lemma_room_left, lemma_same_grid, lemma_sets_finite, lemma_with_tile};
use crate::neighbors::{neighbors_of, positions};
use crate::tile::{Coordinate, Tile};

verus! {

/// What marking one hidden, unflagged tile as revealed does to the board.
pub proof fn lemma_mark_revealed(b: Board, c: Pos)
    requires
        b.grid_ok(),
        b.in_bounds(c),
        !b.at(c).is_revealed,
        !b.at(c).is_flagged,
    ensures
        ({
            let m = Board {
                revealed_count: b.revealed_count + 1,
                ..b.with_tile(c, Tile { is_revealed: true, ..b.at(c) })
            };
            &&& m.grid_ok()
            &&& m.mines() == b.mines()
            &&& m.flagged() == b.flagged()
            &&& m.revealed() == b.revealed().insert(c)
            &&& b.numbers_ok() ==> m.numbers_ok()
        }),
{
    let t = Tile { is_revealed: true, ..b.at(c) };
    let w = b.with_tile(c, t);
    let m = Board { revealed_count: b.revealed_count + 1, ..w };
    lemma_with_tile(b, c, t);
    lemma_same_grid(w, m);
    lemma_room_left(b, b.revealed(), c);
    assert(w.mines() =~= b.mines());
    assert(w.flagged() =~= b.flagged());
    assert forall|d: Pos| m.in_bounds(d) implies !((#[trigger] m.at(d)).is_revealed && m.at(
        d,
    ).is_flagged) by {
        assert(m.at(d) == w.at(d));
        if d != c {
            assert(w.at(d) == b.at(d));
            assert(!(b.at(d).is_revealed && b.at(d).is_flagged));
        }
    }
    if b.numbers_ok() {
        assert forall|d: Pos| m.in_bounds(d) implies (#[trigger] m.at(d)).number
            == m.expected_number(d) by {
            assert(m.at(d) == w.at(d));
            assert(b.at(d).number == b.expected_number(d));
            assert(m.neighbors(d) == b.neighbors(d));
            if d != c {
                assert(w.at(d) == b.at(d));
            }
        }
    }
}

/// A reveal moves no mine and no flag, and takes no revealed tile back.
pub proof fn lemma_reveal_keeps_mines(b: Board, c: Pos)
    requires
        b.grid_ok(),
    ensures
        b.after_reveal(c).mines() == b.mines(),
        b.after_reveal(c).flagged() == b.flagged(),
        b.revealed().subset_of(b.after_reveal(c).revealed()),
        b.after_reveal(c).cols == b.cols,
        b.after_reveal(c).rows == b.rows,
        b.after_reveal(c).mine_count == b.mine_count,
        b.after_reveal(c).seed == b.seed,
        b.after_reveal(c).flagged_count == b.flagged_count,
{
    let n = b.after_reveal(c);
    if n != b {
        if b.at(c).is_a_mine {
            let m = Board {
                revealed_count: b.revealed_count + 1,
                ..b.with_tile(c, Tile { is_revealed: true, ..b.at(c) })
            };
            lemma_mark_revealed(b, c);
            lemma_same_grid(m, n);
        } else {
            let region = b.flood_region(c);
            lemma_flood_region_opens(b, c);
            lemma_reveal_all(b, region);
            lemma_same_grid(b.reveal_all(region), n);
        }
    }
}

/// A reveal keeps a started board valid.
pub proof fn lemma_after_reveal_wf(b: Board, c: Pos)
    requires
        b.wf(),
        b.state != GameState::NotStarted,
    ensures
        b.after_reveal(c).wf(),
        b.after_reveal(c).state != GameState::NotStarted,
{
    let n = b.after_reveal(c);
    if n != b {
        lemma_sets_finite(b);
        if b.at(c).is_a_mine {
            let m = Board {
                revealed_count: b.revealed_count + 1,
                ..b.with_tile(c, Tile { is_revealed: true, ..b.at(c) })
            };
            lemma_mark_revealed(b, c);
            lemma_same_grid(m, n);
            assert(n.revealed().intersect(n.mines()) =~= Set::<Pos>::empty().insert(c));
        } else {
            let region = b.flood_region(c);
            lemma_flood_region_opens(b, c);
            lemma_reveal_all(b, region);
            let r = b.reveal_all(region);
            lemma_same_grid(r, n);
            lemma_sets_finite(r);
            assert(r.revealed().disjoint(r.mines()));
            lemma_set_disjoint_lens(r.revealed(), r.mines());
            lemma_len_subset(r.revealed() + r.mines(), r.cells());
        }
    }
}

impl GameContainer {
    /// Reveals the flood region of `start`: the tile itself, and while the
    /// tiles reached show no number, the openable tiles around them.
    pub(crate) fn reveal_nearby(&mut self, start: Coordinate)
        requires
            old(self)@.grid_ok(),
            old(self)@.can_open(start.pos()),
        ensures
            final(self)@ == old(self)@.reveal_all(old(self)@.flood_region(start.pos())),
    {
        let ghost b0 = self@;
        let ghost from = start.pos();
        let ghost mut region: Set<Pos> = Set::empty();
        let cols = self.cols();
        let rows = self.rows();
        let mut stack: Vec<Coordinate> = Vec::new();
        stack.push(start);
        proof {
            lemma_flood_inv_init(b0, from);
            lemma_reveal_none(b0);
            assert(positions(stack@) =~= seq![from]);
        }
        while stack.len() > 0
            invariant
                b0.grid_ok(),
                b0.can_open(from),
                cols == b0.cols,
                rows == b0.rows,
                self@ == b0.reveal_all(region),
                flood_inv(b0, from, region, positions(stack@)),
            decreases b0.cols * b0.rows - region.len(), stack@.len(),
        {
            let ghost pending = positions(stack@);
            let c = stack.pop().unwrap();
            proof {
                assert(positions(stack@) =~= pending.drop_last());
                assert(c.pos() == pending[pending.len() - 1]);
                lemma_flood_region_opens(b0, from);
                lemma_reveal_all(b0, region);
                lemma_sets_finite(b0);
                lemma_len_subset(region, b0.cells());
            }
            let t = self.tile(c.x, c.y);
            if !t.is_revealed && !t.is_flagged && !t.is_a_mine {
                let n = self.revealed_count();
                proof {
                    assert(!region.contains(c.pos()));
                    assert(b0.can_open(c.pos()));
                    lemma_set_disjoint_lens(b0.revealed(), region);
                    lemma_room_left(b0, b0.revealed() + region, c.pos());
                    lemma_room_left(b0, region, c.pos());
                }
                self.put_tile(c.x, c.y, Tile { is_revealed: true, ..t });
                self.set_revealed_count(n + 1);
                let mut more = if t.number.is_none() {
                    neighbors_of(c, cols, rows)
                } else {
                    Vec::new()
                };
                proof {
                    assert(t.number is None ==> positions(more@) == b0.neighbors(c.pos()));
                    assert(!(t.number is None) ==> positions(more@) =~= Seq::<Pos>::empty());
                    lemma_flood_inv_open(b0, from, region, pending, positions(more@));
                    lemma_reveal_one_more(b0, region, c.pos());
                    assert(positions(stack@ + more@) =~= pending.drop_last() + positions(more@));
                    region = region.insert(c.pos());
                }
                stack.append(&mut more);
            } else {
                proof {
                    lemma_flood_inv_skip(b0, from, region, pending);
                }
            }
        }
        proof {
            assert(positions(stack@) =~= Seq::<Pos>::empty());
            lemma_flood_inv_done(b0, from, region);
        }
    }

    /// Ends the game as won once no safe tile is left hidden.
    pub(crate) fn check_if_win(&mut self)
        requires
            old(self)@.shape_ok(),
        ensures
            final(self)@ == old(self)@.checked(),
    {
        let safe = self.cols() * self.rows() - self.mine_count();
        if self.state() == GameState::InProgress && self.revealed_count() == safe {
            self.set_state(GameState::Won);
        }
    }

    /// Ends the game on the mine at `c`, which alone is marked.
    pub(crate) fn lose(&mut self, c: Coordinate)
        requires
            old(self)@.grid_ok(),
            old(self)@.in_bounds(c.pos()),
            !old(self)@.at(c.pos()).is_revealed,
        ensures
            final(self)@ == (Board {
                state: GameState::Lost,
                revealed_count: old(self)@.revealed_count + 1,
                ..old(self)@.with_tile(
                    c.pos(),
                    Tile { is_revealed: true, ..old(self)@.at(c.pos()) },
                )
            }),
    {
        let t = self.tile(c.x, c.y);
        let n = self.revealed_count();
        proof {
            lemma_room_left(self@, self@.revealed(), c.pos());
        }
        self.put_tile(c.x, c.y, Tile { is_revealed: true, ..t });
        self.set_revealed_count(n + 1);
        self.set_state(GameState::Lost);
    }

    /// Reveals the tile at `c` of a game whose mines lie.
    pub(crate) fn reveal_placed(&mut self, c: Coordinate)
        requires
            old(self).wf(),
            old(self)@.state != GameState::NotStarted,
            old(self)@.in_bounds(c.pos()),
        ensures
            final(self)@ == old(self)@.after_reveal(c.pos()),
            final(self).wf(),
            final(self)@.state != GameState::NotStarted,
    {
        proof {
            lemma_after_reveal_wf(self@, c.pos());
        }
        if self.state() != GameState::InProgress {
            return ;
        }
        let t = self.tile(c.x, c.y);
        if !t.is_revealed && !t.is_flagged {
            if t.is_a_mine {
                self.lose(c);
            } else {
                self.reveal_nearby(c);
                proof {
                    lemma_flood_region_opens(old(self)@, c.pos());
                    lemma_reveal_all(old(self)@, old(self)@.flood_region(c.pos()));
                }
                self.check_if_win();
            }
        }
    }
}

} // verus!
