//! Facts about the grid: how many cells it has, what the sets of mines,
//! flags and revealed tiles become when one tile changes, and which tiles
//! lie around a tile.

use vstd::prelude::*;
use vstd::set_lib::{lemma_len_subset, lemma_set_disjoint_lens};
use crate::board::{adjacent, neighbors_on, on_grid, surroundings, touching, Board, Pos};
use crate::tile::Tile;

verus! {

/// How many entries of `s` belong to `set`.
pub open spec fn count_in(s: Seq<Pos>, set: Set<Pos>) -> nat {
    s.filter(|p: Pos| set.contains(p)).len()
}

/// The cells of one column, down to row `rows`.
pub open spec fn column_cells(x: int, rows: int) -> Set<Pos> {
    Set::new(|c: Pos| c.0 == x && 0 <= c.1 < rows)
}

/// The cells of a grid.
pub open spec fn grid_cells(cols: int, rows: int) -> Set<Pos> {
    Set::new(|c: Pos| on_grid(cols, rows, c))
}

proof fn lemma_column_cells(x: int, rows: int)
    requires
        rows >= 0,
    ensures
        column_cells(x, rows).finite(),
        column_cells(x, rows).len() == rows,
    decreases rows,
{
    if rows == 0 {
        assert(column_cells(x, rows) =~= Set::empty());
    } else {
        lemma_column_cells(x, rows - 1);
        assert(column_cells(x, rows) =~= column_cells(x, rows - 1).insert((x, rows - 1)));
    }
}

/// A grid of `cols` by `rows` has `cols * rows` cells.
pub proof fn lemma_grid_cells(cols: int, rows: int)
    requires
        cols >= 0,
        rows >= 0,
    ensures
        grid_cells(cols, rows).finite(),
        grid_cells(cols, rows).len() == cols * rows,
    decreases cols,
{
    if cols == 0 {
        assert(grid_cells(cols, rows) =~= Set::empty());
    } else {
        lemma_grid_cells(cols - 1, rows);
        lemma_column_cells(cols - 1, rows);
        let rest = grid_cells(cols - 1, rows);
        let last = column_cells(cols - 1, rows);
        assert(grid_cells(cols, rows) =~= rest + last);
        assert(rest.disjoint(last));
        lemma_set_disjoint_lens(rest, last);
        assert(cols * rows == (cols - 1) * rows + rows) by (nonlinear_arith);
    }
}

/// The sets of mines, flags and revealed tiles are finite and no larger
/// than the grid.
pub proof fn lemma_sets_finite(b: Board)
    requires
        b.cols >= 0,
        b.rows >= 0,
    ensures
        b.cells().finite(),
        b.cells().len() == b.cols * b.rows,
        b.mines().finite(),
        b.revealed().finite(),
        b.flagged().finite(),
        b.mines().len() <= b.cols * b.rows,
        b.revealed().len() <= b.cols * b.rows,
        b.flagged().len() <= b.cols * b.rows,
{
    lemma_grid_cells(b.cols, b.rows);
    assert(b.cells() =~= grid_cells(b.cols, b.rows));
    lemma_len_subset(b.mines(), b.cells());
    lemma_len_subset(b.revealed(), b.cells());
    lemma_len_subset(b.flagged(), b.cells());
}

/// A subset of the grid that misses a cell is smaller than the grid.
pub proof fn lemma_room_left(b: Board, s: Set<Pos>, c: Pos)
    requires
        b.cols >= 0,
        b.rows >= 0,
        s.subset_of(b.cells()),
        b.in_bounds(c),
        !s.contains(c),
    ensures
        s.finite(),
        s.len() < b.cols * b.rows,
{
    lemma_sets_finite(b);
    lemma_len_subset(s.insert(c), b.cells());
    lemma_len_subset(s, b.cells());
}

/// Two boards with the same grid agree on everything the grid decides.
pub proof fn lemma_same_grid(a: Board, b: Board)
    requires
        a.tiles == b.tiles,
        a.cols == b.cols,
        a.rows == b.rows,
        a.mine_count == b.mine_count,
    ensures
        forall|c: Pos| #[trigger] a.at(c) == b.at(c),
        a.shape_ok() == b.shape_ok(),
        a.numbers_ok() == b.numbers_ok(),
        a.untouched() == b.untouched(),
        a.mines() == b.mines(),
        a.revealed() == b.revealed(),
        a.flagged() == b.flagged(),
        (a.revealed_count == b.revealed_count && a.flagged_count == b.flagged_count)
            ==> a.grid_ok() == b.grid_ok(),
{
    assert forall|c: Pos| #[trigger] a.at(c) == b.at(c) by {}
    assert(a.mines() =~= b.mines());
    assert(a.revealed() =~= b.revealed());
    assert(a.flagged() =~= b.flagged());
    assert forall|c: Pos| a.expected_number(c) == b.expected_number(c) by {
        assert(a.neighbors(c) == b.neighbors(c));
    }
    assert(a.numbers_ok() == b.numbers_ok()) by {
        if a.numbers_ok() {
            assert forall|c: Pos| b.in_bounds(c) implies (#[trigger] b.at(c)).number
                == b.expected_number(c) by {
                assert(a.at(c).number == a.expected_number(c));
            }
        }
        if b.numbers_ok() {
            assert forall|c: Pos| a.in_bounds(c) implies (#[trigger] a.at(c)).number
                == a.expected_number(c) by {
                assert(b.at(c).number == b.expected_number(c));
            }
        }
    }
    assert(a.untouched() == b.untouched()) by {
        if a.untouched() {
            assert forall|c: Pos| b.in_bounds(c) implies !(#[trigger] b.at(c)).is_a_mine && !b.at(
                c,
            ).is_revealed && b.at(c).number is None by {
                assert(!a.at(c).is_a_mine);
            }
        }
        if b.untouched() {
            assert forall|c: Pos| a.in_bounds(c) implies !(#[trigger] a.at(c)).is_a_mine && !a.at(
                c,
            ).is_revealed && a.at(c).number is None by {
                assert(!b.at(c).is_a_mine);
            }
        }
    }
    assert(a.shape_ok() == b.shape_ok()) by {
        if a.shape_ok() {
            assert forall|c: Pos| b.in_bounds(c) implies (#[trigger] b.at(c)).coordinates.pos()
                == c by {
                assert(a.at(c).coordinates.pos() == c);
            }
        }
        if b.shape_ok() {
            assert forall|c: Pos| a.in_bounds(c) implies (#[trigger] a.at(c)).coordinates.pos()
                == c by {
                assert(b.at(c).coordinates.pos() == c);
            }
        }
    }
    if a.revealed_count == b.revealed_count && a.flagged_count == b.flagged_count {
        if a.grid_ok() {
            assert forall|c: Pos| b.in_bounds(c) implies !((#[trigger] b.at(c)).is_revealed
                && b.at(c).is_flagged) by {
                assert(!(a.at(c).is_revealed && a.at(c).is_flagged));
            }
        }
        if b.grid_ok() {
            assert forall|c: Pos| a.in_bounds(c) implies !((#[trigger] a.at(c)).is_revealed
                && a.at(c).is_flagged) by {
                assert(!(b.at(c).is_revealed && b.at(c).is_flagged));
            }
        }
    }
}

/// What replacing one tile does to the board.
pub proof fn lemma_with_tile(b: Board, c: Pos, t: Tile)
    requires
        b.shape_ok(),
        b.in_bounds(c),
        t.coordinates == b.at(c).coordinates,
    ensures
        b.with_tile(c, t).shape_ok(),
        b.with_tile(c, t).at(c) == t,
        forall|d: Pos| b.in_bounds(d) && d != c ==> #[trigger] b.with_tile(c, t).at(d) == b.at(d),
        forall|d: Pos| b.with_tile(c, t).in_bounds(d) == b.in_bounds(d),
        b.with_tile(c, t).mines() == if t.is_a_mine {
            b.mines().insert(c)
        } else {
            b.mines().remove(c)
        },
        b.with_tile(c, t).revealed() == if t.is_revealed {
            b.revealed().insert(c)
        } else {
            b.revealed().remove(c)
        },
        b.with_tile(c, t).flagged() == if t.is_flagged {
            b.flagged().insert(c)
        } else {
            b.flagged().remove(c)
        },
{
    let n = b.with_tile(c, t);
    assert(b.tiles[c.0].len() == b.rows);
    assert forall|x: int| 0 <= x < n.cols implies (#[trigger] n.tiles[x]).len() == n.rows by {
        assert(b.tiles[x].len() == b.rows);
    }
    assert forall|d: Pos| b.in_bounds(d) && d != c implies #[trigger] n.at(d) == b.at(d) by {
        assert(b.tiles[d.0].len() == b.rows);
    }
    assert forall|d: Pos| n.in_bounds(d) implies (#[trigger] n.at(d)).coordinates.pos() == d by {
        if d != c {
            assert(n.at(d) == b.at(d));
        }
    }
    assert(n.mines() =~= if t.is_a_mine {
        b.mines().insert(c)
    } else {
        b.mines().remove(c)
    }) by {
        assert forall|d: Pos| b.in_bounds(d) && d != c implies n.at(d).is_a_mine == b.at(
            d,
        ).is_a_mine by {
            assert(n.at(d) == b.at(d));
        }
    }
    assert(n.revealed() =~= if t.is_revealed {
        b.revealed().insert(c)
    } else {
        b.revealed().remove(c)
    }) by {
        assert forall|d: Pos| b.in_bounds(d) && d != c implies n.at(d).is_revealed == b.at(
            d,
        ).is_revealed by {
            assert(n.at(d) == b.at(d));
        }
    }
    assert(n.flagged() =~= if t.is_flagged {
        b.flagged().insert(c)
    } else {
        b.flagged().remove(c)
    }) by {
        assert forall|d: Pos| b.in_bounds(d) && d != c implies n.at(d).is_flagged == b.at(
            d,
        ).is_flagged by {
            assert(n.at(d) == b.at(d));
        }
    }
}

// ----- the tiles around a tile -----

/// Filtering a sequence with one more entry.
pub proof fn lemma_filter_push<A>(s: Seq<A>, x: A, pred: spec_fn(A) -> bool)
    ensures
        s.push(x).filter(pred) == if pred(x) {
            s.filter(pred).push(x)
        } else {
            s.filter(pred)
        },
{
    reveal(Seq::filter);
    assert(s.push(x).drop_last() =~= s);
    assert(s.push(x).last() == x);
}

/// Filtering keeps a sequence free of duplicates.
pub proof fn lemma_filter_no_duplicates<A>(s: Seq<A>, pred: spec_fn(A) -> bool)
    requires
        s.no_duplicates(),
    ensures
        s.filter(pred).no_duplicates(),
    decreases s.len(),
{
    if s.len() > 0 {
        let rest = s.drop_last();
        lemma_filter_no_duplicates(rest, pred);
        let kept = rest.filter(pred);
        assert(rest.push(s.last()) =~= s);
        lemma_filter_push(rest, s.last(), pred);
        if pred(s.last()) {
            assert forall|i: int| 0 <= i < kept.len() implies kept[i] != s.last() by {
                assert(kept.contains(kept[i]));
                rest.lemma_filter_contains_rev(pred, kept[i]);
                let j = choose|j: int| 0 <= j < rest.len() && rest[j] == kept[i];
                assert(s[j] == rest[j]);
            }
        }
    }
}

/// The tiles around `c` on the grid are the grid's tiles that touch `c`,
/// each listed once.
pub proof fn lemma_neighbors(cols: int, rows: int, c: Pos)
    ensures
        neighbors_on(cols, rows, c).len() <= 8,
        neighbors_on(cols, rows, c).no_duplicates(),
        forall|p: Pos|
            #[trigger] neighbors_on(cols, rows, c).contains(p) <==> (adjacent(c, p) && on_grid(
                cols,
                rows,
                p,
            )),
{
    let all = surroundings(c);
    let pred = |p: Pos| on_grid(cols, rows, p);
    let found = neighbors_on(cols, rows, c);
    all.lemma_filter_len(pred);
    broadcast use vstd::seq_lib::group_filter_ensures;
    assert forall|p: Pos| #[trigger] found.contains(p) <==> (adjacent(c, p) && on_grid(cols, rows, p)) by {
        if found.contains(p) {
            let i = choose|i: int| 0 <= i < found.len() && found[i] == p;
            assert(pred(found[i]));
            all.lemma_filter_contains_rev(pred, p);
            let j = choose|j: int| 0 <= j < all.len() && all[j] == p;
            assert(adjacent(c, p));
        }
        if adjacent(c, p) && on_grid(cols, rows, p) {
            let dx = p.0 - c.0;
            let dy = p.1 - c.1;
            let j = if dx == -1 {
                dy + 1
            } else if dx == 0 {
                if dy == -1 {
                    3int
                } else {
                    4int
                }
            } else {
                dy + 6
            };
            assert(all[j] == p);
            assert(all.contains(p));
            assert(pred(p));
        }
    }
    assert(all.no_duplicates());
    lemma_filter_no_duplicates(all, pred);
}

/// A count is no larger than the sequence, and where it is zero no entry
/// belongs to the set.
pub proof fn lemma_count_in(s: Seq<Pos>, set: Set<Pos>)
    ensures
        count_in(s, set) <= s.len(),
        count_in(s, set) == 0 ==> forall|i: int| 0 <= i < s.len() ==> !set.contains(#[trigger] s[i]),
        count_in(s, set) > 0 ==> exists|i: int| 0 <= i < s.len() && set.contains(#[trigger] s[i]),
    decreases s.len(),
{
    let pred = |p: Pos| set.contains(p);
    s.lemma_filter_len(pred);
    if s.len() > 0 {
        lemma_count_in(s.drop_last(), set);
        let rest = s.drop_last();
        assert(rest.push(s.last()) =~= s);
        lemma_filter_push(rest, s.last(), pred);
        if count_in(s, set) == 0 {
            assert forall|i: int| 0 <= i < s.len() implies !set.contains(#[trigger] s[i]) by {
                if i < s.len() - 1 {
                    assert(rest[i] == s[i]);
                }
            }
        } else {
            if set.contains(s.last()) {
                assert(set.contains(s[s.len() - 1]));
            } else {
                let i = choose|i: int| 0 <= i < rest.len() && set.contains(#[trigger] rest[i]);
                assert(rest[i] == s[i]);
            }
        }
    }
}

/// A count with one more entry.
pub proof fn lemma_count_push(s: Seq<Pos>, x: Pos, set: Set<Pos>)
    ensures
        count_in(s.push(x), set) == count_in(s, set) + if set.contains(x) {
            1nat
        } else {
            0nat
        },
{
    lemma_filter_push(s, x, |p: Pos| set.contains(p));
}

/// Counting along a list without duplicates counts the members of a set.
pub proof fn lemma_count_is_size(s: Seq<Pos>, set: Set<Pos>)
    requires
        s.no_duplicates(),
    ensures
        s.to_set().intersect(set).finite(),
        count_in(s, set) == s.to_set().intersect(set).len(),
    decreases s.len(),
{
    vstd::seq_lib::seq_to_set_is_finite(s);
    if s.len() == 0 {
        lemma_count_in(s, set);
        assert(s.to_set().intersect(set) =~= Set::empty());
    } else {
        let rest = s.drop_last();
        let x = s.last();
        assert(rest.push(x) =~= s);
        lemma_count_is_size(rest, set);
        lemma_count_push(rest, x, set);
        rest.lemma_push_to_set_commute(x);
        assert(!rest.to_set().contains(x)) by {
            if rest.contains(x) {
                let j = choose|j: int| 0 <= j < rest.len() && rest[j] == x;
                assert(s[j] == s[s.len() - 1]);
            }
        }
        if set.contains(x) {
            assert(s.to_set().intersect(set) =~= rest.to_set().intersect(set).insert(x));
        } else {
            assert(s.to_set().intersect(set) =~= rest.to_set().intersect(set));
        }
    }
}

/// Counting along the tiles around `c` counts the positions of the set
/// that touch `c`, of which there are at most eight.
pub proof fn lemma_count_around(cols: int, rows: int, c: Pos, set: Set<Pos>)
    requires
        forall|p: Pos| set.contains(p) ==> on_grid(cols, rows, p),
    ensures
        touching(c, set).finite(),
        touching(c, set).len() == count_in(neighbors_on(cols, rows, c), set),
        touching(c, set).len() <= 8,
{
    let around = neighbors_on(cols, rows, c);
    lemma_neighbors(cols, rows, c);
    lemma_count_is_size(around, set);
    lemma_count_in(around, set);
    assert(touching(c, set) =~= around.to_set().intersect(set)) by {
        assert forall|p: Pos| touching(c, set).contains(p) == around.to_set().intersect(
            set,
        ).contains(p) by {
            assert(around.contains(p) <==> (adjacent(c, p) && on_grid(cols, rows, p)));
        }
    }
}

/// Where no mine of the set touches `c`, none does; and where the count
/// is positive, one does.
pub proof fn lemma_touching_none(c: Pos, set: Set<Pos>)
    requires
        touching(c, set).finite(),
    ensures
        touching(c, set).len() == 0 <==> forall|p: Pos| adjacent(c, p) ==> !set.contains(p),
{
    if touching(c, set).len() == 0 {
        assert forall|p: Pos| adjacent(c, p) implies !set.contains(p) by {
            if set.contains(p) {
                assert(touching(c, set).contains(p));
            }
        }
    }
    if forall|p: Pos| adjacent(c, p) ==> !set.contains(p) {
        assert(touching(c, set) =~= Set::empty());
    }
}

} // verus!
