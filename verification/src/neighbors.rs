//! The tiles around a tile, as a list of coordinates.

use vstd::prelude::*;
use crate::board::{neighbors_on, on_grid, surroundings, Pos};
use crate::grid::lemma_filter_push;
use crate::tile::Coordinate;

verus! {

/// The positions of a list of coordinates.
pub open spec fn positions(s: Seq<Coordinate>) -> Seq<Pos> {
    s.map_values(|c: Coordinate| c.pos())
}

/// `v` moved by `d` steps, where that stays below `limit`.
fn shifted(v: usize, d: i8, limit: usize) -> (r: Option<usize>)
    requires
        -1 <= d <= 1,
    ensures
        r == if 0 <= v + d < limit {
            Some((v + d) as usize)
        } else {
            None
        },
{
    if d == -1 {
        if v >= 1 && v - 1 < limit {
            Some(v - 1)
        } else {
            None
        }
    } else if d == 0 {
        if v < limit {
            Some(v)
        } else {
            None
        }
    } else {
        if v < limit && v + 1 < limit {
            Some(v + 1)
        } else {
            None
        }
    }
}

/// Appends the position `(c.x + dx, c.y + dy)` where it lies on the grid.
fn push_if_on_grid(
    out: &mut Vec<Coordinate>,
    c: Coordinate,
    dx: i8,
    dy: i8,
    cols: usize,
    rows: usize,
)
    requires
        -1 <= dx <= 1,
        -1 <= dy <= 1,
    ensures
        positions(final(out)@) == if on_grid(cols as int, rows as int, (c.x + dx, c.y + dy)) {
            positions(old(out)@).push((c.x + dx, c.y + dy))
        } else {
            positions(old(out)@)
        },
        forall|i: int|
            0 <= i < old(out)@.len() ==> #[trigger] final(out)@[i] == old(out)@[i],
        forall|i: int|
            old(out)@.len() <= i < final(out)@.len() ==> on_grid(
                cols as int,
                rows as int,
                (#[trigger] final(out)@[i]).pos(),
            ),
{
    match shifted(c.x, dx, cols) {
        Some(x) => match shifted(c.y, dy, rows) {
            Some(y) => {
                out.push(Coordinate::new(x, y));
                assert(positions(out@) =~= positions(old(out)@).push((c.x + dx, c.y + dy)));
            },
            None => {},
        },
        None => {},
    }
}

/// The tiles around `c` on a grid of `cols` by `rows`: the up to eight
/// tiles that touch `c`, left column first, each column from the top down.
pub fn neighbors_of(c: Coordinate, cols: usize, rows: usize) -> (r: Vec<Coordinate>)
    ensures
        positions(r@) == neighbors_on(cols as int, rows as int, c.pos()),
        forall|i: int|
            0 <= i < r@.len() ==> on_grid(cols as int, rows as int, (#[trigger] r@[i]).pos()),
{
    let ghost pred = |p: Pos| on_grid(cols as int, rows as int, p);
    let ghost x = c.x as int;
    let ghost y = c.y as int;
    let ghost s0 = Seq::<Pos>::empty();
    let ghost s1 = s0.push((x - 1, y - 1));
    let ghost s2 = s1.push((x - 1, y));
    let ghost s3 = s2.push((x - 1, y + 1));
    let ghost s4 = s3.push((x, y - 1));
    let ghost s5 = s4.push((x, y + 1));
    let ghost s6 = s5.push((x + 1, y - 1));
    let ghost s7 = s6.push((x + 1, y));
    let ghost s8 = s7.push((x + 1, y + 1));
    proof {
        reveal(Seq::filter);
        assert(s0.filter(pred) =~= Seq::<Pos>::empty());
        lemma_filter_push(s0, (x - 1, y - 1), pred);
        lemma_filter_push(s1, (x - 1, y), pred);
        lemma_filter_push(s2, (x - 1, y + 1), pred);
        lemma_filter_push(s3, (x, y - 1), pred);
        lemma_filter_push(s4, (x, y + 1), pred);
        lemma_filter_push(s5, (x + 1, y - 1), pred);
        lemma_filter_push(s6, (x + 1, y), pred);
        lemma_filter_push(s7, (x + 1, y + 1), pred);
        assert(s8 =~= surroundings(c.pos()));
    }
    let mut r: Vec<Coordinate> = Vec::new();
    assert(positions(r@) =~= s0.filter(pred));
    push_if_on_grid(&mut r, c, -1, -1, cols, rows);
    assert(positions(r@) == s1.filter(pred));
    push_if_on_grid(&mut r, c, -1, 0, cols, rows);
    assert(positions(r@) == s2.filter(pred));
    push_if_on_grid(&mut r, c, -1, 1, cols, rows);
    assert(positions(r@) == s3.filter(pred));
    push_if_on_grid(&mut r, c, 0, -1, cols, rows);
    assert(positions(r@) == s4.filter(pred));
    push_if_on_grid(&mut r, c, 0, 1, cols, rows);
    assert(positions(r@) == s5.filter(pred));
    push_if_on_grid(&mut r, c, 1, -1, cols, rows);
    assert(positions(r@) == s6.filter(pred));
    push_if_on_grid(&mut r, c, 1, 0, cols, rows);
    assert(positions(r@) == s7.filter(pred));
    push_if_on_grid(&mut r, c, 1, 1, cols, rows);
    assert(positions(r@) == s8.filter(pred));
    r
}

} // verus!
