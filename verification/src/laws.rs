//! What holds of every game, stated over the board and proved from the
//! definitions of its moves.

use vstd::prelude::*;
use vstd::set_lib::{lemma_len_subset, lemma_set_disjoint_lens, lemma_subset_equality};
use crate::board::{adjacent, touching, Board, GameState, Pos};
use crate::flood::{
    law_flood_is_least, lemma_flood_path_prefix, lemma_flood_region_opens, lemma_flood_start,
    lemma_flood_step, lemma_reveal_all,
};
use crate::grid::{
    lemma_count_around, lemma_same_grid, lemma_sets_finite, lemma_touching_none, lemma_with_tile,
};
use crate::placement::{lemma_layout_fits, lemma_placed_wf};
use crate::tile::Tile;
use crate::uncover::{lemma_after_reveal_wf, lemma_mark_revealed, lemma_reveal_keeps_mines};

verus! {

/// Once the mines lie, exactly as many tiles hold a mine as the game asks
/// for.
pub proof fn law_mines_are_counted(b: Board)
    requires
        b.wf(),
        b.state != GameState::NotStarted,
    ensures
        b.mines().finite(),
        b.mines().len() == b.mine_count,
{
    lemma_sets_finite(b);
}

/// Every layout that a first reveal can produce has exactly as many mines
/// as the game asks for, each on a tile of the grid outside the safe zone.
pub proof fn law_layout_is_complete(b: Board, click: Pos, mines: Set<Pos>)
    requires
        b.shape_ok(),
        b.can_lay(click, mines),
    ensures
        mines.finite(),
        mines.len() == b.mine_count,
        forall|p: Pos| mines.contains(p) ==> b.ground().eligible(click, p),
{
    lemma_layout_fits(b, click, mines);
}

/// In a game without a seed no mine is laid on the tile of the first
/// reveal or on a tile around it.
pub proof fn law_click_is_safe(b: Board, click: Pos, mines: Set<Pos>, p: Pos)
    requires
        b.shape_ok(),
        b.seed is None,
        b.can_lay(click, mines),
        -1 <= p.0 - click.0 <= 1,
        -1 <= p.1 - click.1 <= 1,
    ensures
        !mines.contains(p),
{
    law_layout_is_complete(b, click, mines);
}

/// In a seeded game no mine is laid in the two leftmost columns or the two
/// top rows.
pub proof fn law_seeded_corner_is_safe(b: Board, click: Pos, mines: Set<Pos>, p: Pos)
    requires
        b.shape_ok(),
        b.seed is Some,
        b.can_lay(click, mines),
        p.0 <= 1 || p.1 <= 1,
    ensures
        !mines.contains(p),
{
    law_layout_is_complete(b, click, mines);
}

/// The first reveal of a game without a seed never loses: unless the
/// clicked tile carries a flag it is revealed, and it shows no number.
pub proof fn law_first_reveal_is_safe(b: Board, click: Pos, mines: Set<Pos>)
    requires
        b.wf(),
        b.state == GameState::NotStarted,
        b.seed is None,
        b.in_bounds(click),
        b.can_lay(click, mines),
    ensures
        ({
            let n = b.after_reveal_request(click, mines);
            &&& n.wf()
            &&& n.mines() == mines
            &&& n.state == GameState::InProgress || n.state == GameState::Won
            &&& !b.at(click).is_flagged ==> n.at(click).is_revealed && n.at(click).number is None
        }),
{
    law_layout_is_complete(b, click, mines);
    let p = b.placed(mines);
    assert(mines.subset_of(b.cells()));
    lemma_placed_wf(b, mines);
    lemma_after_reveal_wf(p, click);
    lemma_reveal_keeps_mines(p, click);
    let n = p.after_reveal(click);
    assert(!mines.contains(click));
    assert(p.flagged().contains(click) == b.flagged().contains(click));
    assert(!p.revealed().contains(click));
    if !b.at(click).is_flagged {
        let region = p.flood_region(click);
        lemma_flood_start(p, click);
        lemma_flood_region_opens(p, click);
        lemma_reveal_all(p, region);
        let r = p.reveal_all(region);
        lemma_same_grid(r, n);
        assert(r.at(click).is_revealed);
        assert(p.at(click).number == p.expected_number(click));
        assert(p.mines_around(click) == 0) by {
            lemma_count_around(p.cols, p.rows, click, p.mines());
            assert forall|q: Pos| adjacent(click, q) implies !p.mines().contains(q) by {
                law_click_is_safe(b, click, mines, q);
            }
            lemma_touching_none(click, p.mines());
        }
    }
}

/// Once the mines lie, a tile without a mine shows the number of mines on
/// the tiles around it, and shows none exactly where there is none.
pub proof fn law_numbers_count_mines(b: Board, c: Pos)
    requires
        b.wf(),
        b.state != GameState::NotStarted,
        b.in_bounds(c),
        !b.at(c).is_a_mine,
    ensures
        touching(c, b.mines()).finite(),
        b.mines_around(c) == touching(c, b.mines()).len(),
        b.mines_around(c) <= 8,
        b.at(c).number is None <==> b.mines_around(c) == 0,
        b.at(c).number is None <==> forall|p: Pos| adjacent(c, p) ==> !b.mines().contains(p),
        forall|n: u8| b.at(c).number == Some(n) ==> n == b.mines_around(c) && 1 <= n <= 8,
{
    lemma_count_around(b.cols, b.rows, c, b.mines());
    lemma_touching_none(c, b.mines());
    assert(b.at(c).number == b.expected_number(c));
}

/// A reveal of an openable tile reveals its flood region and nothing else,
/// each tile once, and no mine among them. The region holds the tile; with
/// each of its tiles that shows no number it holds every openable tile
/// around that tile; and each of its other tiles lies next to one of its
/// tiles that shows no number.
pub proof fn law_flood(b: Board, c: Pos)
    requires
        b.wf(),
        b.state == GameState::InProgress,
        b.can_open(c),
    ensures
        ({
            let n = b.after_reveal(c);
            let region = b.flood_region(c);
            &&& region.finite()
            &&& region.contains(c)
            &&& region.disjoint(b.mines())
            &&& region.disjoint(b.revealed())
            &&& n.revealed() == b.revealed() + region
            &&& n.revealed_count == b.revealed_count + region.len()
            &&& n.mines() == b.mines()
            &&& n.flagged() == b.flagged()
            &&& n.state != GameState::Lost
            &&& forall|u: Pos, p: Pos|
                region.contains(u) && b.at(u).number is None && #[trigger] adjacent(u, p)
                    && b.can_open(p) ==> region.contains(p)
            &&& forall|p: Pos|
                #[trigger] region.contains(p) && p != c ==> exists|u: Pos|
                    region.contains(u) && b.at(u).number is None && #[trigger] adjacent(u, p)
        }),
{
    let n = b.after_reveal(c);
    let region = b.flood_region(c);
    lemma_flood_start(b, c);
    lemma_flood_region_opens(b, c);
    lemma_reveal_all(b, region);
    lemma_same_grid(b.reveal_all(region), n);
    assert forall|u: Pos, p: Pos|
        region.contains(u) && b.at(u).number is None && #[trigger] adjacent(u, p) && b.can_open(
            p,
        ) implies region.contains(p) by {
        lemma_flood_step(b, c, u, p);
    }
    assert forall|p: Pos| #[trigger] region.contains(p) && p != c implies exists|u: Pos|
        region.contains(u) && b.at(u).number is None && #[trigger] adjacent(u, p) by {
        let path = choose|path: Seq<Pos>|
            #[trigger] b.flood_path(path) && path[0] == c && path.last() == p;
        let k = path.len() - 1;
        lemma_flood_path_prefix(b, path, k);
        let u = path[k - 1];
        assert(b.flood_reaches(c, u));
        assert(b.at(path[k - 1]).number is None && adjacent(path[k - 1], path[k - 1 + 1]));
        assert(region.contains(u) && b.at(u).number is None && adjacent(u, p));
    }
}

/// A reveal of a tile that shows a number reveals that tile alone.
pub proof fn law_flood_stops_at_number(b: Board, c: Pos)
    requires
        b.can_open(c),
        b.at(c).number is Some,
    ensures
        b.flood_region(c) == Set::<Pos>::empty().insert(c),
{
    let only = Set::<Pos>::empty().insert(c);
    law_flood_is_least(b, c, only);
    lemma_flood_start(b, c);
    assert(b.flood_region(c) =~= only);
}

/// Once the mines lie, no mine touches a tile that shows no number and
/// holds no mine, so the flood meets no mine on its way.
pub proof fn law_flood_meets_no_mine(b: Board, u: Pos, p: Pos)
    requires
        b.wf(),
        b.state != GameState::NotStarted,
        b.in_bounds(u),
        !b.at(u).is_a_mine,
        b.at(u).number is None,
        adjacent(u, p),
        b.in_bounds(p),
    ensures
        !b.at(p).is_a_mine,
{
    law_numbers_count_mines(b, u);
    assert(!b.mines().contains(p));
}

/// A reveal of a revealed or flagged tile changes nothing.
pub proof fn law_reveal_ignores_revealed_and_flagged(b: Board, c: Pos)
    requires
        b.in_bounds(c),
        b.at(c).is_revealed || b.at(c).is_flagged,
    ensures
        b.after_reveal(c) == b,
{
}

/// Unless the game is lost, it is won exactly when the number of revealed
/// tiles is the number of tiles without a mine, which is exactly when every
/// tile without a mine is revealed. A game in progress has fewer revealed.
pub proof fn law_won_iff_all_safe_revealed(b: Board)
    requires
        b.wf(),
        b.state != GameState::Lost,
    ensures
        b.state == GameState::Won <==> b.revealed_count == b.safe_count(),
        b.state == GameState::InProgress ==> b.revealed_count < b.safe_count(),
        b.state == GameState::Won <==> (b.state != GameState::NotStarted && forall|c: Pos|
            b.in_bounds(c) && !b.at(c).is_a_mine ==> b.at(c).is_revealed),
{
    lemma_sets_finite(b);
    if b.state != GameState::NotStarted {
        let safe = b.cells().difference(b.mines());
        assert(safe.disjoint(b.mines()));
        assert(safe + b.mines() =~= b.cells());
        lemma_len_subset(safe, b.cells());
        lemma_set_disjoint_lens(safe, b.mines());
        assert(b.revealed().subset_of(safe));
        if b.state == GameState::Won {
            lemma_subset_equality(b.revealed(), safe);
            assert forall|c: Pos| b.in_bounds(c) && !b.at(c).is_a_mine implies b.at(
                c,
            ).is_revealed by {
                assert(safe.contains(c));
            }
        } else {
            if forall|c: Pos| b.in_bounds(c) && !b.at(c).is_a_mine ==> b.at(c).is_revealed {
                assert(safe.subset_of(b.revealed()));
                lemma_len_subset(safe, b.revealed());
            }
        }
    } else {
        assert(b.revealed() =~= Set::empty()) by {
            assert forall|c: Pos| b.in_bounds(c) implies !b.at(c).is_revealed by {}
        }
    }
}

/// Whatever the state, the game is won exactly when the number of revealed
/// tiles is the number of tiles without a mine and no mine is revealed; and
/// it is lost exactly when a mine is revealed.
pub proof fn law_won_and_lost(b: Board)
    requires
        b.wf(),
    ensures
        b.state == GameState::Won <==> b.revealed_count == b.safe_count() && b.revealed().disjoint(
            b.mines(),
        ),
        b.state == GameState::Lost <==> !b.revealed().disjoint(b.mines()),
{
    lemma_sets_finite(b);
    if b.state == GameState::Lost {
        let both = b.revealed().intersect(b.mines());
        assert(both.len() == 1);
        assert(both.contains(both.choose()));
    } else {
        law_won_iff_all_safe_revealed(b);
        if b.state == GameState::NotStarted {
            assert forall|c: Pos| b.in_bounds(c) implies !b.at(c).is_revealed by {}
        }
    }
}

/// A reveal of a mine loses the game and marks that tile as revealed;
/// no other tile changes and no flag moves.
pub proof fn law_mine_ends_game(b: Board, c: Pos)
    requires
        b.wf(),
        b.state == GameState::InProgress,
        b.in_bounds(c),
        b.at(c).is_a_mine,
        !b.at(c).is_flagged,
    ensures
        ({
            let n = b.after_reveal(c);
            &&& n.state == GameState::Lost
            &&& n.at(c) == (Tile { is_revealed: true, ..b.at(c) })
            &&& forall|d: Pos| b.in_bounds(d) && d != c ==> #[trigger] n.at(d) == b.at(d)
            &&& n.revealed_count == b.revealed_count + 1
            &&& n.flagged_count == b.flagged_count
            &&& n.revealed().intersect(n.mines()) == Set::<Pos>::empty().insert(c)
        }),
{
    let n = b.after_reveal(c);
    let t = Tile { is_revealed: true, ..b.at(c) };
    assert(!b.revealed().contains(c));
    lemma_with_tile(b, c, t);
    lemma_mark_revealed(b, c);
    lemma_same_grid(b.with_tile(c, t), n);
    assert(n.revealed().intersect(n.mines()) =~= Set::<Pos>::empty().insert(c));
}

/// Once the game is won or lost no move changes anything.
pub proof fn law_over_is_final(b: Board, c: Pos)
    requires
        b.is_over(),
    ensures
        b.after_reveal(c) == b,
        b.after_toggle_flag(c) == b,
        b.after_chord(c) == b,
{
}

/// A game that has begun never goes back to the start, and a game that is
/// over stays as it ended.
pub proof fn law_states_only_advance(b: Board, c: Pos)
    requires
        b.wf(),
    ensures
        b.after_toggle_flag(c).state == b.state,
        b.state == GameState::InProgress ==> b.after_reveal(c).state != GameState::NotStarted,
        b.state != GameState::InProgress ==> b.after_reveal(c).state == b.state,
{
}

/// A run of reveals keeps the game valid, moves no mine and no flag, and
/// takes no revealed tile back.
pub proof fn lemma_reveals_keep(b: Board, s: Seq<Pos>)
    requires
        b.wf(),
        b.state != GameState::NotStarted,
    ensures
        b.after_reveals(s).wf(),
        b.after_reveals(s).state != GameState::NotStarted,
        b.after_reveals(s).mines() == b.mines(),
        b.after_reveals(s).flagged() == b.flagged(),
        b.revealed().subset_of(b.after_reveals(s).revealed()),
        b.after_reveals(s).cols == b.cols,
        b.after_reveals(s).rows == b.rows,
        b.after_reveals(s).mine_count == b.mine_count,
    decreases s.len(),
{
    if s.len() > 0 {
        let m = b.after_reveals(s.drop_last());
        lemma_reveals_keep(b, s.drop_last());
        lemma_after_reveal_wf(m, s.last());
        lemma_reveal_keeps_mines(m, s.last());
    }
}

/// A run of reveals over tiles that each carry a flag or hold no mine
/// does not lose, and leaves each of them that carries no flag revealed.
pub proof fn lemma_reveals_safe(b: Board, s: Seq<Pos>)
    requires
        b.wf(),
        b.state == GameState::InProgress || b.state == GameState::Won,
        forall|i: int|
            0 <= i < s.len() ==> b.in_bounds(#[trigger] s[i]) && (b.at(s[i]).is_flagged || !b.at(
                s[i],
            ).is_a_mine),
    ensures
        b.after_reveals(s).state == GameState::InProgress || b.after_reveals(s).state
            == GameState::Won,
        forall|i: int|
            0 <= i < s.len() && !b.at(#[trigger] s[i]).is_flagged ==> b.after_reveals(
                s,
            ).revealed().contains(s[i]),
    decreases s.len(),
{
    if s.len() > 0 {
        let rest = s.drop_last();
        let x = s.last();
        let m = b.after_reveals(rest);
        let n = m.after_reveal(x);
        assert forall|i: int| 0 <= i < rest.len() implies b.in_bounds(#[trigger] rest[i]) && (
        b.at(rest[i]).is_flagged || !b.at(rest[i]).is_a_mine) by {
            assert(rest[i] == s[i]);
        }
        lemma_reveals_safe(b, rest);
        lemma_reveals_keep(b, rest);
        lemma_after_reveal_wf(m, x);
        lemma_reveal_keeps_mines(m, x);
        assert(b.in_bounds(s[s.len() - 1]));
        assert(m.flagged().contains(x) == b.flagged().contains(x));
        assert(m.mines().contains(x) == b.mines().contains(x));
        if !b.at(x).is_flagged {
            if m.state == GameState::Won {
                law_won_iff_all_safe_revealed(m);
            } else if !m.at(x).is_revealed {
                law_flood(m, x);
            }
            assert(n.revealed().contains(x));
        } else {
            assert(n == m);
        }
        assert forall|i: int| 0 <= i < s.len() && !b.at(#[trigger] s[i]).is_flagged implies n.revealed().contains(
            s[i],
        ) by {
            if i < rest.len() {
                assert(rest[i] == s[i]);
                assert(m.revealed().contains(rest[i]));
            }
        }
    }
}

/// A run of reveals that meets an unflagged mine loses the game, where a
/// flag on a tile without a mine keeps the game from being won before.
pub proof fn lemma_reveals_lose(b: Board, s: Seq<Pos>, k: int, blocker: Pos)
    requires
        b.wf(),
        b.state == GameState::InProgress,
        0 <= k < s.len(),
        b.in_bounds(s[k]),
        b.at(s[k]).is_a_mine,
        !b.at(s[k]).is_flagged,
        b.in_bounds(blocker),
        b.at(blocker).is_flagged,
        !b.at(blocker).is_a_mine,
    ensures
        b.after_reveals(s).state == GameState::Lost,
    decreases s.len(),
{
    let rest = s.drop_last();
    let x = s.last();
    let m = b.after_reveals(rest);
    lemma_reveals_keep(b, rest);
    if k < s.len() - 1 {
        assert(rest[k] == s[k]);
        lemma_reveals_lose(b, rest, k, blocker);
    } else {
        assert(m.flagged().contains(blocker) == b.flagged().contains(blocker));
        assert(m.mines().contains(blocker) == b.mines().contains(blocker));
        assert(m.flagged().contains(x) == b.flagged().contains(x));
        assert(m.mines().contains(x) == b.mines().contains(x));
        if m.state != GameState::Lost {
            law_won_iff_all_safe_revealed(m);
            assert(!(m.at(blocker).is_revealed && m.at(blocker).is_flagged));
            assert(m.state == GameState::InProgress);
            assert(!m.revealed().contains(x));
        }
    }
}

/// A chord does nothing unless the tile is revealed and shows as its
/// number the number of flags around it.
pub proof fn law_chord_needs_matching_flags(b: Board, c: Pos)
    requires
        !b.chord_applies(c),
    ensures
        b.after_chord(c) == b,
{
}

/// A chord that acts where no unflagged tile around holds a mine reveals
/// every unflagged tile around, and the game goes on or is won.
pub proof fn law_chord_reveals_neighbors(b: Board, c: Pos)
    requires
        b.wf(),
        b.chord_applies(c),
        forall|p: Pos|
            #[trigger] adjacent(c, p) && b.in_bounds(p) && !b.at(p).is_flagged ==> !b.at(
                p,
            ).is_a_mine,
    ensures
        ({
            let n = b.after_chord(c);
            &&& n.wf()
            &&& n.state == GameState::InProgress || n.state == GameState::Won
            &&& n.mines() == b.mines()
            &&& n.flagged() == b.flagged()
            &&& b.revealed().subset_of(n.revealed())
            &&& forall|p: Pos|
                #[trigger] adjacent(c, p) && b.in_bounds(p) && !b.at(p).is_flagged
                    ==> n.revealed().contains(p)
        }),
{
    let s = b.neighbors(c);
    let n = b.after_reveals(s);
    crate::grid::lemma_neighbors(b.cols, b.rows, c);
    assert forall|i: int| 0 <= i < s.len() implies b.in_bounds(#[trigger] s[i]) && (b.at(
        s[i],
    ).is_flagged || !b.at(s[i]).is_a_mine) by {
        assert(s.contains(s[i]));
        assert(adjacent(c, s[i]));
    }
    lemma_reveals_keep(b, s);
    lemma_reveals_safe(b, s);
    assert forall|p: Pos|
        #[trigger] adjacent(c, p) && b.in_bounds(p) && !b.at(p).is_flagged implies n.revealed().contains(
        p,
    ) by {
        assert(s.contains(p));
        let i = choose|i: int| 0 <= i < s.len() && s[i] == p;
        assert(!b.at(s[i]).is_flagged);
    }
}

/// A chord that acts where an unflagged tile around holds a mine loses the
/// game.
pub proof fn law_chord_on_unflagged_mine_loses(b: Board, c: Pos, p: Pos)
    requires
        b.wf(),
        b.chord_applies(c),
        adjacent(c, p),
        b.in_bounds(p),
        b.at(p).is_a_mine,
        !b.at(p).is_flagged,
    ensures
        b.after_chord(c).state == GameState::Lost,
        b.after_chord(c).wf(),
{
    let s = b.neighbors(c);
    crate::grid::lemma_neighbors(b.cols, b.rows, c);
    lemma_reveals_keep(b, s);
    let mines = touching(c, b.mines());
    let flags = touching(c, b.flagged());
    lemma_count_around(b.cols, b.rows, c, b.mines());
    lemma_count_around(b.cols, b.rows, c, b.flagged());
    assert(!b.at(c).is_a_mine) by {
        assert(b.revealed().contains(c));
    }
    assert(b.at(c).number == b.expected_number(c));
    assert(mines.len() == flags.len());
    assert(mines.contains(p) && !flags.contains(p));
    if flags.subset_of(mines) {
        assert(flags.subset_of(mines.remove(p)));
        lemma_len_subset(flags, mines.remove(p));
    }
    let blocker = choose|q: Pos| flags.contains(q) && !mines.contains(q);
    assert(s.contains(p));
    let k = choose|k: int| 0 <= k < s.len() && s[k] == p;
    lemma_reveals_lose(b, s, k, blocker);
}

/// Every move keeps the invariant of the game: the counters count what
/// they say, no revealed tile carries a flag, the mines stay as many as
/// they were laid, the numbers stay right, and no mine is revealed unless
/// the game is lost.
pub proof fn law_moves_keep_the_invariant(b: Board, c: Pos, mines: Set<Pos>)
    requires
        b.wf(),
        b.state == GameState::NotStarted ==> b.can_lay(c, mines),
    ensures
        b.after_reveal_request(c, mines).wf(),
        b.after_toggle_flag(c).wf(),
        b.after_chord(c).wf(),
{
    crate::play::lemma_after_toggle_wf(b, c);
    if b.state == GameState::NotStarted {
        lemma_layout_fits(b, c, mines);
        lemma_placed_wf(b, mines);
        lemma_after_reveal_wf(b.placed(mines), (0, 0));
        lemma_after_reveal_wf(b.started(mines), c);
    } else {
        lemma_after_reveal_wf(b, c);
        lemma_reveals_keep(b, b.neighbors(c));
    }
}

/// Toggling a flag twice leaves the board as it was.
pub proof fn law_toggle_twice(b: Board, c: Pos)
    requires
        b.shape_ok(),
    ensures
        b.after_toggle_flag(c).after_toggle_flag(c) == b,
{
    let once = b.after_toggle_flag(c);
    let twice = once.after_toggle_flag(c);
    if once != b {
        assert(b.tiles[c.0].len() == b.rows);
        assert(once.at(c).is_flagged == !b.at(c).is_flagged);
        assert(twice.tiles[c.0] =~= b.tiles[c.0]);
        assert(twice.tiles =~= b.tiles);
    }
}

} // verus!
