//! The flood: why a worklist of coordinates reveals exactly the flood region
//! of the tile it starts from.

use vstd::prelude::*;
use vstd::set_lib::{lemma_len_subset, lemma_set_disjoint_lens};
use crate::board::{adjacent, Board, Pos};
use crate::grid::{lemma_neighbors, lemma_sets_finite};
use crate::tile::Tile;

verus! {

/// `n` is revealed by now or waits on the worklist.
pub open spec fn covered(region: Set<Pos>, pending: Seq<Pos>, n: Pos) -> bool {
    region.contains(n) || pending.contains(n)
}

/// Every openable tile around `u` is revealed by now or waits on the
/// worklist.
pub open spec fn expanded(b: Board, region: Set<Pos>, pending: Seq<Pos>, u: Pos) -> bool {
    forall|n: Pos| adjacent(u, n) && b.can_open(n) ==> #[trigger] covered(region, pending, n)
}

/// What the flood keeps true while it runs on board `b` from `from`, with
/// `region` revealed so far and `pending` still to visit.
pub open spec fn flood_inv(b: Board, from: Pos, region: Set<Pos>, pending: Seq<Pos>) -> bool {
    &&& region.finite()
    &&& region.subset_of(b.flood_region(from))
    &&& forall|i: int|
        0 <= i < pending.len() ==> b.in_bounds(#[trigger] pending[i]) && (b.can_open(pending[i])
            ==> b.flood_reaches(from, pending[i]))
    &&& covered(region, pending, from)
    &&& forall|u: Pos|
        region.contains(u) && b.at(u).number is None ==> #[trigger] expanded(
            b,
            region,
            pending,
            u,
        )
}

/// A tile that can be opened is reached from itself.
pub proof fn lemma_flood_start(b: Board, from: Pos)
    requires
        b.can_open(from),
    ensures
        b.flood_reaches(from, from),
{
    let p = seq![from];
    assert(b.flood_path(p));
    assert(p[0] == from && p.last() == from);
}

/// The flood goes on from a reached tile without a number to each openable
/// tile around it.
pub proof fn lemma_flood_step(b: Board, from: Pos, u: Pos, n: Pos)
    requires
        b.flood_reaches(from, u),
        b.at(u).number is None,
        adjacent(u, n),
        b.can_open(n),
    ensures
        b.flood_reaches(from, n),
{
    let p = choose|p: Seq<Pos>| #[trigger] b.flood_path(p) && p[0] == from && p.last() == u;
    let q = p.push(n);
    assert forall|i: int| 0 <= i < q.len() implies b.can_open(#[trigger] q[i]) by {
        if i < p.len() {
            assert(q[i] == p[i]);
        }
    }
    assert forall|i: int| 0 <= i < q.len() - 1 implies (#[trigger] b.at(q[i])).number is None
        && adjacent(q[i], q[i + 1]) by {
        assert(q[i] == p[i]);
        if i < p.len() - 1 {
            assert(q[i + 1] == p[i + 1]);
            assert(b.at(p[i]).number is None && adjacent(p[i], p[i + 1]));
        }
    }
    assert(b.flood_path(q));
    assert(q[0] == from && q.last() == n);
}

/// Every tile of a flood region can be opened, so the region is finite and
/// holds no mine, no flag and no revealed tile.
pub proof fn lemma_flood_region_opens(b: Board, from: Pos)
    requires
        b.cols >= 0,
        b.rows >= 0,
    ensures
        forall|c: Pos| #[trigger] b.flood_region(from).contains(c) ==> b.can_open(c),
        b.flood_region(from).finite(),
        b.flood_region(from).subset_of(b.cells()),
        b.flood_region(from).disjoint(b.mines()),
        b.flood_region(from).disjoint(b.revealed()),
        b.flood_region(from).disjoint(b.flagged()),
{
    assert forall|c: Pos| #[trigger] b.flood_region(from).contains(c) implies b.can_open(c) by {
        let p = choose|p: Seq<Pos>| #[trigger] b.flood_path(p) && p[0] == from && p.last() == c;
        assert(b.can_open(p[p.len() - 1]));
    }
    lemma_sets_finite(b);
    lemma_len_subset(b.flood_region(from), b.cells());
}

/// A prefix of a flood path is a flood path.
pub proof fn lemma_flood_path_prefix(b: Board, p: Seq<Pos>, k: int)
    requires
        b.flood_path(p),
        1 <= k <= p.len(),
    ensures
        b.flood_path(p.take(k)),
        p.take(k)[0] == p[0],
        p.take(k).last() == p[k - 1],
{
    let q = p.take(k);
    assert forall|i: int| 0 <= i < q.len() implies b.can_open(#[trigger] q[i]) by {
        assert(q[i] == p[i]);
    }
    assert forall|i: int| 0 <= i < q.len() - 1 implies (#[trigger] b.at(q[i])).number is None
        && adjacent(q[i], q[i + 1]) by {
        assert(q[i] == p[i] && q[i + 1] == p[i + 1]);
        assert(b.at(p[i]).number is None && adjacent(p[i], p[i + 1]));
    }
}

/// The flood region is the least set that holds the tile and, with each of
/// its tiles that shows no number, every openable tile around that tile.
pub proof fn law_flood_is_least(b: Board, c: Pos, other: Set<Pos>)
    requires
        other.contains(c),
        forall|u: Pos, p: Pos|
            other.contains(u) && b.at(u).number is None && #[trigger] adjacent(u, p)
                && b.can_open(p) ==> other.contains(p),
    ensures
        b.flood_region(c).subset_of(other),
{
    assert forall|p: Pos| b.flood_region(c).contains(p) implies other.contains(p) by {
        let path = choose|path: Seq<Pos>|
            #[trigger] b.flood_path(path) && path[0] == c && path.last() == p;
        lemma_path_within(b, path, other);
    }
}

proof fn lemma_path_within(b: Board, path: Seq<Pos>, other: Set<Pos>)
    requires
        b.flood_path(path),
        other.contains(path[0]),
        forall|u: Pos, p: Pos|
            other.contains(u) && b.at(u).number is None && #[trigger] adjacent(u, p)
                && b.can_open(p) ==> other.contains(p),
    ensures
        other.contains(path.last()),
    decreases path.len(),
{
    if path.len() > 1 {
        let k = path.len() - 1;
        lemma_flood_path_prefix(b, path, k);
        lemma_path_within(b, path.take(k), other);
        assert(b.at(path[k - 1]).number is None && adjacent(path[k - 1], path[k - 1 + 1]));
        assert(b.can_open(path[k]));
    }
}

/// The flood may start: nothing is revealed and the start waits.
pub proof fn lemma_flood_inv_init(b: Board, from: Pos)
    requires
        b.can_open(from),
    ensures
        flood_inv(b, from, Set::empty(), seq![from]),
{
    let pending = seq![from];
    lemma_flood_start(b, from);
    assert(pending[0] == from);
    assert(pending.contains(from));
}

/// A visit to a tile that is revealed by now or cannot be opened changes
/// nothing but the worklist.
pub proof fn lemma_flood_inv_skip(b: Board, from: Pos, region: Set<Pos>, pending: Seq<Pos>)
    requires
        flood_inv(b, from, region, pending),
        pending.len() > 0,
        !b.can_open(pending.last()) || region.contains(pending.last()),
        b.can_open(from),
    ensures
        flood_inv(b, from, region, pending.drop_last()),
{
    let c = pending.last();
    let rest = pending.drop_last();
    assert forall|n: Pos| covered(region, pending, n) && b.can_open(n) implies covered(
        region,
        rest,
        n,
    ) by {
        if !region.contains(n) {
            let i = choose|i: int| 0 <= i < pending.len() && pending[i] == n;
            assert(rest[i] == n);
        }
    }
    assert forall|i: int| 0 <= i < rest.len() implies b.in_bounds(#[trigger] rest[i]) && (
    b.can_open(rest[i]) ==> b.flood_reaches(from, rest[i])) by {
        assert(rest[i] == pending[i]);
    }
    assert forall|u: Pos| region.contains(u) && b.at(u).number is None implies #[trigger] expanded(
        b,
        region,
        rest,
        u,
    ) by {
        assert(expanded(b, region, pending, u));
        assert forall|n: Pos| adjacent(u, n) && b.can_open(n) implies #[trigger] covered(
            region,
            rest,
            n,
        ) by {
            assert(covered(region, pending, n));
        }
    }
}

/// A visit to an openable tile reveals it, and where it shows no number the
/// tiles around it join the worklist.
pub proof fn lemma_flood_inv_open(
    b: Board,
    from: Pos,
    region: Set<Pos>,
    pending: Seq<Pos>,
    more: Seq<Pos>,
)
    requires
        flood_inv(b, from, region, pending),
        pending.len() > 0,
        b.can_open(pending.last()),
        !region.contains(pending.last()),
        more == if b.at(pending.last()).number is None {
            b.neighbors(pending.last())
        } else {
            Seq::<Pos>::empty()
        },
    ensures
        flood_inv(b, from, region.insert(pending.last()), pending.drop_last() + more),
{
    let c = pending.last();
    let rest = pending.drop_last();
    let grown = region.insert(c);
    let next = rest + more;
    lemma_neighbors(b.cols, b.rows, c);
    assert(b.flood_reaches(from, c));
    assert forall|n: Pos| covered(region, pending, n) implies covered(grown, next, n) by {
        if !region.contains(n) && n != c {
            let i = choose|i: int| 0 <= i < pending.len() && pending[i] == n;
            assert(next[i] == n);
        }
    }
    assert forall|i: int| 0 <= i < next.len() implies b.in_bounds(#[trigger] next[i]) && (
    b.can_open(next[i]) ==> b.flood_reaches(from, next[i])) by {
        if i < rest.len() {
            assert(next[i] == pending[i]);
        } else {
            let n = more[i - rest.len()];
            assert(next[i] == n);
            assert(b.neighbors(c).contains(n));
            if b.can_open(n) {
                lemma_flood_step(b, from, c, n);
            }
        }
    }
    assert forall|u: Pos| grown.contains(u) && b.at(u).number is None implies #[trigger] expanded(
        b,
        grown,
        next,
        u,
    ) by {
        assert forall|n: Pos| adjacent(u, n) && b.can_open(n) implies #[trigger] covered(
            grown,
            next,
            n,
        ) by {
            if u == c {
                assert(b.neighbors(c).contains(n));
                let j = choose|j: int| 0 <= j < more.len() && more[j] == n;
                assert(next[rest.len() + j] == n);
            } else {
                assert(expanded(b, region, pending, u));
                assert(covered(region, pending, n));
            }
        }
    }
}

/// Once the worklist is empty the revealed tiles are the flood region.
pub proof fn lemma_flood_inv_done(b: Board, from: Pos, region: Set<Pos>)
    requires
        flood_inv(b, from, region, Seq::empty()),
    ensures
        region == b.flood_region(from),
{
    assert(!Seq::<Pos>::empty().contains(from));
    assert forall|u: Pos, p: Pos|
        region.contains(u) && b.at(u).number is None && #[trigger] adjacent(u, p) && b.can_open(
            p,
        ) implies region.contains(p) by {
        assert(expanded(b, region, Seq::empty(), u));
        assert(covered(region, Seq::empty(), p));
        assert(!Seq::<Pos>::empty().contains(p));
    }
    law_flood_is_least(b, from, region);
    assert(region =~= b.flood_region(from));
}

/// What revealing a set of openable tiles does to the board.
pub proof fn lemma_reveal_all(b: Board, region: Set<Pos>)
    requires
        b.grid_ok(),
        forall|c: Pos| region.contains(c) ==> b.can_open(c),
    ensures
        region.finite(),
        b.reveal_all(region).grid_ok(),
        b.reveal_all(region).mines() == b.mines(),
        b.reveal_all(region).flagged() == b.flagged(),
        b.reveal_all(region).revealed() == b.revealed() + region,
        forall|c: Pos|
            b.in_bounds(c) ==> #[trigger] b.reveal_all(region).at(c) == if region.contains(c) {
                Tile { is_revealed: true, ..b.at(c) }
            } else {
                b.at(c)
            },
        b.numbers_ok() ==> b.reveal_all(region).numbers_ok(),
{
    let n = b.reveal_all(region);
    lemma_sets_finite(b);
    assert(region.subset_of(b.cells()));
    lemma_len_subset(region, b.cells());
    assert forall|c: Pos| b.in_bounds(c) implies #[trigger] n.at(c) == if region.contains(c) {
        Tile { is_revealed: true, ..b.at(c) }
    } else {
        b.at(c)
    } by {
        assert(b.tiles[c.0].len() == b.rows);
    }
    assert(n.mines() =~= b.mines());
    assert(n.flagged() =~= b.flagged());
    assert(n.revealed() =~= b.revealed() + region);
    assert(b.revealed().disjoint(region));
    lemma_set_disjoint_lens(b.revealed(), region);
    assert forall|c: Pos| n.in_bounds(c) implies (#[trigger] n.at(c)).coordinates.pos() == c by {
        assert(b.at(c).coordinates.pos() == c);
    }
    assert forall|c: Pos| n.in_bounds(c) implies !((#[trigger] n.at(c)).is_revealed && n.at(
        c,
    ).is_flagged) by {
        assert(!(b.at(c).is_revealed && b.at(c).is_flagged));
    }
    if b.numbers_ok() {
        assert forall|c: Pos| n.in_bounds(c) implies (#[trigger] n.at(c)).number
            == n.expected_number(c) by {
            assert(b.at(c).number == b.expected_number(c));
        }
    }
}

/// Revealing nothing leaves the board as it is.
pub proof fn lemma_reveal_none(b: Board)
    requires
        b.shape_ok(),
    ensures
        b.reveal_all(Set::empty()) == b,
{
    let n = b.reveal_all(Set::empty());
    assert forall|x: int| 0 <= x < b.cols implies #[trigger] n.tiles[x] =~= b.tiles[x] by {
        assert(b.tiles[x].len() == b.rows);
    }
    assert(n.tiles =~= b.tiles);
}

/// Revealing one more tile.
pub proof fn lemma_reveal_one_more(b: Board, region: Set<Pos>, c: Pos)
    requires
        b.shape_ok(),
        b.in_bounds(c),
        region.finite(),
        !region.contains(c),
    ensures
        b.reveal_all(region.insert(c)) == (Board {
            revealed_count: b.reveal_all(region).revealed_count + 1,
            ..b.reveal_all(region).with_tile(
                c,
                Tile { is_revealed: true, ..b.reveal_all(region).at(c) },
            )
        }),
{
    let before = b.reveal_all(region);
    let after = b.reveal_all(region.insert(c));
    let stepped = before.with_tile(c, Tile { is_revealed: true, ..before.at(c) });
    assert(b.tiles[c.0].len() == b.rows);
    assert forall|x: int| 0 <= x < b.cols implies #[trigger] after.tiles[x] =~= stepped.tiles[x] by {
        assert(b.tiles[x].len() == b.rows);
    }
    assert(after.tiles =~= stepped.tiles);
}

} // verus!
