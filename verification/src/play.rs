//! The moves of the game: reveal, flag and chord.

use vstd::prelude::*;
use crate::board::{Board, GameState, Pos};
use crate::game::{GameContainer, GameError};
use crate::grid::{lemma_room_left, lemma_same_grid, lemma_sets_finite, lemma_with_tile};
use crate::neighbors::{neighbors_of, positions};
use crate::tile::{Coordinate, Tile};
use crate::uncover::lemma_reveal_keeps_mines;

verus! {

impl Board {
    /// The board after a reveal is asked for at `c`, where the mines it
    /// lays on a first reveal are `mines`: a game not yet started starts
    /// on that layout first.
    pub open spec fn after_reveal_request(self, c: Pos, mines: Set<Pos>) -> Board {
        if self.state == GameState::NotStarted {
            self.started(mines).after_reveal(c)
        } else {
            self.after_reveal(c)
        }
    }
}

/// Toggling a flag keeps the board valid.
pub proof fn lemma_after_toggle_wf(b: Board, c: Pos)
    requires
        b.wf(),
    ensures
        b.after_toggle_flag(c).wf(),
        b.after_toggle_flag(c).mines() == b.mines(),
        b.after_toggle_flag(c).revealed() == b.revealed(),
        0 <= b.flagged_count <= b.cols * b.rows,
        b.in_bounds(c) && !b.at(c).is_flagged ==> b.flagged_count < b.cols * b.rows,
        b.in_bounds(c) && b.at(c).is_flagged ==> b.flagged_count > 0,
{
    let n = b.after_toggle_flag(c);
    lemma_sets_finite(b);
    if b.in_bounds(c) {
        if b.at(c).is_flagged {
            assert(b.flagged().contains(c));
            assert(b.flagged().remove(c).len() == b.flagged().len() - 1);
        } else {
            lemma_room_left(b, b.flagged(), c);
        }
    }
    if n != b {
        let t = Tile { is_flagged: !b.at(c).is_flagged, ..b.at(c) };
        let w = b.with_tile(c, t);
        lemma_with_tile(b, c, t);
        lemma_same_grid(w, n);
        assert(w.mines() =~= b.mines());
        assert(w.revealed() =~= b.revealed());
        assert forall|d: Pos| n.in_bounds(d) implies !((#[trigger] n.at(d)).is_revealed && n.at(
            d,
        ).is_flagged) by {
            assert(n.at(d) == w.at(d));
            if d != c {
                assert(w.at(d) == b.at(d));
                assert(!(b.at(d).is_revealed && b.at(d).is_flagged));
            }
        }
        if b.state == GameState::NotStarted {
            assert forall|d: Pos| n.in_bounds(d) implies !(#[trigger] n.at(d)).is_a_mine && !n.at(
                d,
            ).is_revealed && n.at(d).number is None by {
                assert(n.at(d) == w.at(d));
                assert(!b.at(d).is_a_mine);
                if d != c {
                    assert(w.at(d) == b.at(d));
                }
            }
        } else {
            assert forall|d: Pos| n.in_bounds(d) implies (#[trigger] n.at(d)).number
                == n.expected_number(d) by {
                assert(n.at(d) == w.at(d));
                assert(b.at(d).number == b.expected_number(d));
                assert(n.neighbors(d) == b.neighbors(d));
                if d != c {
                    assert(w.at(d) == b.at(d));
                }
            }
        }
    }
}

impl GameContainer {
    /// Whether `c` lies on the grid.
    pub fn in_bounds(&self, c: Coordinate) -> (r: bool)
        ensures
            r == self@.in_bounds(c.pos()),
    {
        c.x < self.cols() && c.y < self.rows()
    }

    /// Reveals the tile at `c` and returns the state of the game after it.
    ///
    /// The first reveal of a game lays the mines, with `c` as the clicked
    /// tile, and begins play; where they cannot be laid the call fails with
    /// `Unplaceable` and the game stays as it is. The reveal itself does
    /// nothing once the game is over or on a revealed or flagged tile; on a
    /// mine the game is lost; else the flood region of `c` is revealed and
    /// the game is won if no safe tile is left hidden. A coordinate off the
    /// grid is refused with `OutOfBounds`.
    pub fn reveal_tile_at(&mut self, c: Coordinate) -> (r: Result<GameState, GameError>)
        requires
            old(self).wf(),
        ensures
            final(self).wf(),
            match r {
                Ok(state) => {
                    &&& old(self)@.in_bounds(c.pos())
                    &&& state == final(self)@.state
                    &&& state != GameState::NotStarted
                    &&& old(self)@.state == GameState::NotStarted ==> old(self)@.can_lay(
                        c.pos(),
                        final(self)@.mines(),
                    )
                    &&& final(self)@ == old(self)@.after_reveal_request(
                        c.pos(),
                        final(self)@.mines(),
                    )
                },
                Err(e) => {
                    &&& final(self)@ == old(self)@
                    &&& if !old(self)@.in_bounds(c.pos()) {
                        e == GameError::OutOfBounds
                    } else {
                        &&& e == GameError::Unplaceable
                        &&& old(self)@.state == GameState::NotStarted
                        &&& old(self)@.can_fail_to_lay(c.pos())
                    }
                },
            },
    {
        if !self.in_bounds(c) {
            return Err(GameError::OutOfBounds);
        }
        if self.state() == GameState::NotStarted {
            match self.distribute_mines(c) {
                Err(e) => {
                    return Err(e);
                },
                Ok(()) => {},
            }
        }
        proof {
            lemma_reveal_keeps_mines(self@, c.pos());
        }
        self.reveal_placed(c);
        Ok(self.state())
    }

    /// Toggles the flag on the tile at `c`. Nothing happens once the game
    /// is over or on a revealed tile. A coordinate off the grid is refused
    /// with `OutOfBounds`.
    pub fn toggle_flag_at(&mut self, c: Coordinate) -> (r: Result<(), GameError>)
        requires
            old(self).wf(),
        ensures
            final(self).wf(),
            match r {
                Ok(()) => {
                    &&& old(self)@.in_bounds(c.pos())
                    &&& final(self)@ == old(self)@.after_toggle_flag(c.pos())
                },
                Err(e) => {
                    &&& e == GameError::OutOfBounds
                    &&& !old(self)@.in_bounds(c.pos())
                    &&& final(self)@ == old(self)@
                },
            },
    {
        if !self.in_bounds(c) {
            return Err(GameError::OutOfBounds);
        }
        proof {
            lemma_after_toggle_wf(self@, c.pos());
        }
        let state = self.state();
        if state == GameState::Won || state == GameState::Lost {
            return Ok(());
        }
        let t = self.tile(c.x, c.y);
        if !t.is_revealed {
            let n = self.flagged_count();
            self.put_tile(c.x, c.y, Tile { is_flagged: !t.is_flagged, ..t });
            if t.is_flagged {
                self.set_flagged_count(n - 1);
            } else {
                self.set_flagged_count(n + 1);
            }
        }
        Ok(())
    }

    /// Chords the tile at `c` and returns the state of the game after it.
    ///
    /// Where the game is in progress, the tile is revealed and shows a
    /// number, and as many flags stand around it, each tile around it is
    /// revealed in turn, as `reveal_tile_at` would. Else nothing happens. A
    /// coordinate off the grid is refused with `OutOfBounds`.
    pub fn chord_at(&mut self, c: Coordinate) -> (r: Result<GameState, GameError>)
        requires
            old(self).wf(),
        ensures
            final(self).wf(),
            match r {
                Ok(state) => {
                    &&& old(self)@.in_bounds(c.pos())
                    &&& state == final(self)@.state
                    &&& final(self)@ == old(self)@.after_chord(c.pos())
                },
                Err(e) => {
                    &&& e == GameError::OutOfBounds
                    &&& !old(self)@.in_bounds(c.pos())
                    &&& final(self)@ == old(self)@
                },
            },
    {
        if !self.in_bounds(c) {
            return Err(GameError::OutOfBounds);
        }
        if self.state() != GameState::InProgress {
            return Ok(self.state());
        }
        let t = self.tile(c.x, c.y);
        let flags = self.flags_around(c);
        let matches = match t.number {
            Some(n) => n == flags,
            None => false,
        };
        if !t.is_revealed || !matches {
            return Ok(self.state());
        }
        let nbrs = neighbors_of(c, self.cols(), self.rows());
        let ghost b = self@;
        let ghost around = positions(nbrs@);
        let mut i: usize = 0;
        assert(around.take(0) =~= Seq::<Pos>::empty());
        while i < nbrs.len()
            invariant
                b.wf(),
                self.wf(),
                self@.state != GameState::NotStarted,
                self@.cols == b.cols,
                self@.rows == b.rows,
                i <= nbrs@.len(),
                around == positions(nbrs@),
                forall|j: int| 0 <= j < nbrs@.len() ==> b.in_bounds((#[trigger] nbrs@[j]).pos()),
                self@ == b.after_reveals(around.take(i as int)),
            decreases nbrs@.len() - i,
        {
            proof {
                lemma_reveal_keeps_mines(self@, nbrs@[i as int].pos());
                assert(around.take(i + 1).drop_last() =~= around.take(i as int));
                assert(around.take(i + 1).last() == nbrs@[i as int].pos());
            }
            self.reveal_placed(nbrs[i]);
            i += 1;
        }
        assert(around.take(i as int) =~= around);
        Ok(self.state())
    }
}

} // verus!
