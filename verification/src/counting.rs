//! Counting the mines and the flags around a tile.

use vstd::prelude::*;
use crate::game::GameContainer;
use crate::grid::{
    count_in, lemma_count_around, lemma_count_in, lemma_count_push, lemma_neighbors,
};
use crate::neighbors::{neighbors_of, positions};
use crate::tile::Coordinate;

verus! {

impl GameContainer {
    /// The number of mines on the tiles around `c`.
    pub(crate) fn mines_around(&self, c: Coordinate) -> (n: u8)
        requires
            self@.shape_ok(),
        ensures
            n == self@.mines_around(c.pos()),
            n <= 8,
    {
        let nbrs = neighbors_of(c, self.cols(), self.rows());
        let ghost around = positions(nbrs@);
        let mut n: u8 = 0;
        let mut i: usize = 0;
        proof {
            lemma_neighbors(self@.cols, self@.rows, c.pos());
            lemma_count_in(around.take(0), self@.mines());
        }
        while i < nbrs.len()
            invariant
                self@.shape_ok(),
                i <= nbrs@.len() <= 8,
                around == positions(nbrs@),
                around == self@.neighbors(c.pos()),
                forall|j: int| 0 <= j < nbrs@.len() ==> self@.in_bounds((#[trigger] nbrs@[j]).pos()),
                n == count_in(around.take(i as int), self@.mines()),
                n <= i,
            decreases nbrs@.len() - i,
        {
            let p = nbrs[i];
            let t = self.tile(p.x, p.y);
            proof {
                assert(around.take(i + 1) =~= around.take(i as int).push(p.pos()));
                lemma_count_push(around.take(i as int), p.pos(), self@.mines());
            }
            if t.is_a_mine {
                n += 1;
            }
            i += 1;
        }
        proof {
            assert(around.take(i as int) =~= around);
            lemma_count_around(self@.cols, self@.rows, c.pos(), self@.mines());
        }
        n
    }

    /// The number of flags on the tiles around `c`.
    pub(crate) fn flags_around(&self, c: Coordinate) -> (n: u8)
        requires
            self@.shape_ok(),
        ensures
            n == self@.flags_around(c.pos()),
            n <= 8,
    {
        let nbrs = neighbors_of(c, self.cols(), self.rows());
        let ghost around = positions(nbrs@);
        let mut n: u8 = 0;
        let mut i: usize = 0;
        proof {
            lemma_neighbors(self@.cols, self@.rows, c.pos());
            lemma_count_in(around.take(0), self@.flagged());
        }
        while i < nbrs.len()
            invariant
                self@.shape_ok(),
                i <= nbrs@.len() <= 8,
                around == positions(nbrs@),
                around == self@.neighbors(c.pos()),
                forall|j: int| 0 <= j < nbrs@.len() ==> self@.in_bounds((#[trigger] nbrs@[j]).pos()),
                n == count_in(around.take(i as int), self@.flagged()),
                n <= i,
            decreases nbrs@.len() - i,
        {
            let p = nbrs[i];
            let t = self.tile(p.x, p.y);
            proof {
                assert(around.take(i + 1) =~= around.take(i as int).push(p.pos()));
                lemma_count_push(around.take(i as int), p.pos(), self@.flagged());
            }
            if t.is_flagged {
                n += 1;
            }
            i += 1;
        }
        proof {
            assert(around.take(i as int) =~= around);
            lemma_count_around(self@.cols, self@.rows, c.pos(), self@.flagged());
        }
        n
    }
}

} // verus!
