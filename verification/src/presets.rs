//! The sizes a player can pick from.

use vstd::prelude::*;
use crate::game::{valid_dimensions, valid_mine_count};

verus! {

/// The size of a game and the number of its mines.
#[derive(Copy, Clone, PartialEq, Eq, Debug, Structural)]
pub struct Settings {
    pub cols: usize,
    pub rows: usize,
    pub mines: usize,
}

/// The number of presets.
pub const PRESETS: usize = 7;

/// The preset of each level, from the smallest grid to the largest.
pub open spec fn preset_of(level: usize) -> Option<Settings> {
    if level == 0 {
        Some(Settings { cols: 9, rows: 9, mines: 10 })
    } else if level == 1 {
        Some(Settings { cols: 16, rows: 16, mines: 40 })
    } else if level == 2 {
        Some(Settings { cols: 30, rows: 16, mines: 99 })
    } else if level == 3 {
        Some(Settings { cols: 40, rows: 24, mines: 250 })
    } else if level == 4 {
        Some(Settings { cols: 60, rows: 35, mines: 691 })
    } else if level == 5 {
        Some(Settings { cols: 82, rows: 44, mines: 1334 })
    } else if level == 6 {
        Some(Settings { cols: 120, rows: 50, mines: 2520 })
    } else {
        None
    }
}

/// The preset of `level`, or none where there is no such level.
pub fn preset(level: usize) -> (r: Option<Settings>)
    ensures
        r == preset_of(level),
        r is Some <==> level < PRESETS,
{
    if level == 0 {
        Some(Settings { cols: 9, rows: 9, mines: 10 })
    } else if level == 1 {
        Some(Settings { cols: 16, rows: 16, mines: 40 })
    } else if level == 2 {
        Some(Settings { cols: 30, rows: 16, mines: 99 })
    } else if level == 3 {
        Some(Settings { cols: 40, rows: 24, mines: 250 })
    } else if level == 4 {
        Some(Settings { cols: 60, rows: 35, mines: 691 })
    } else if level == 5 {
        Some(Settings { cols: 82, rows: 44, mines: 1334 })
    } else if level == 6 {
        Some(Settings { cols: 120, rows: 50, mines: 2520 })
    } else {
        None
    }
}

/// Every preset is a game that can be made, and one that leaves room for
/// its mines outside any safe zone.
pub proof fn law_presets_are_valid(level: usize)
    requires
        level < PRESETS,
    ensures
        preset_of(level) is Some,
        ({
            let s = preset_of(level)->0;
            &&& valid_dimensions(s.rows as int, s.cols as int)
            &&& valid_mine_count(s.rows as int, s.cols as int, s.mines as int)
            &&& s.mines <= (s.cols - 2) * (s.rows - 2)
            &&& s.mines <= s.cols * s.rows - 9
        }),
{
    assert(isize::MAX >= 0x7fff_ffff);
    if level == 0 {
        assert(9 * 9 == 81 && 7 * 7 == 49);
    } else if level == 1 {
        assert(16 * 16 == 256 && 14 * 14 == 196);
    } else if level == 2 {
        assert(16 * 30 == 480 && 30 * 16 == 480 && 28 * 14 == 392);
    } else if level == 3 {
        assert(24 * 40 == 960 && 40 * 24 == 960 && 38 * 22 == 836);
    } else if level == 4 {
        assert(35 * 60 == 2100 && 60 * 35 == 2100 && 58 * 33 == 1914);
    } else if level == 5 {
        assert(44 * 82 == 3608 && 82 * 44 == 3608 && 80 * 42 == 3360);
    } else {
        assert(50 * 120 == 6000 && 120 * 50 == 6000 && 118 * 48 == 5664);
    }
}

} // verus!
