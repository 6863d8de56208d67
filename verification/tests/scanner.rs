use rustsweeper::game::GameError;
use rustsweeper::placement::MAX_SWEEPS;
use rustsweeper::scanner::{Progress, Scanner};
use rustsweeper::tile::Coordinate;

// 2 * 23 + 7 = 53, so the token 2 asks for a mine; 0 * 23 + 7 = 7 does not.
const HIT: u64 = 2;
const MISS: u64 = 0;

fn at(x: usize, y: usize) -> Coordinate {
    Coordinate::new(x, y)
}

fn laid(s: &Scanner, cols: usize, rows: usize) -> Vec<(usize, usize)> {
    let mut out = Vec::new();
    for x in 0..cols {
        for y in 0..rows {
            if s.holds_mine(at(x, y)) {
                out.push((x, y));
            }
        }
    }
    out
}

#[test]
fn a_new_scan_has_laid_nothing() {
    let s = Scanner::new(3, 4, 2, false, at(0, 0)).unwrap();
    assert_eq!(s.progress(), Progress::Going);
    assert_eq!(laid(&s, 4, 3), vec![]);
    assert!(!s.holds_mine(at(4, 0)));
    assert!(!s.holds_mine(at(0, 3)));
}

#[test]
fn a_scan_takes_the_settings_a_game_takes() {
    assert_eq!(Scanner::new(0, 3, 1, false, at(0, 0)).err(), Some(GameError::InvalidDimensions));
    assert_eq!(Scanner::new(3, 0, 1, true, at(0, 0)).err(), Some(GameError::InvalidDimensions));
    assert_eq!(Scanner::new(3, 3, 0, false, at(0, 0)).err(), Some(GameError::InvalidMineCount));
    assert_eq!(Scanner::new(3, 3, 9, true, at(0, 0)).err(), Some(GameError::InvalidMineCount));
    assert!(Scanner::new(3, 3, 8, true, at(7, 7)).is_ok());
}

#[test]
fn the_scan_goes_down_each_column_and_skips_the_safe_zone() {
    let mut s = Scanner::new(3, 3, 2, false, at(0, 0)).unwrap();
    // Every token asks for a mine; the first eligible tiles on the way are
    // (0, 2), the third tile, and (1, 2), the sixth.
    assert_eq!(s.feed(HIT), Progress::Going);
    assert_eq!(s.feed(HIT), Progress::Going);
    assert_eq!(laid(&s, 3, 3), vec![]);
    assert_eq!(s.feed(HIT), Progress::Going);
    assert_eq!(laid(&s, 3, 3), vec![(0, 2)]);
    assert_eq!(s.feed(HIT), Progress::Going);
    assert_eq!(s.feed(HIT), Progress::Going);
    assert_eq!(laid(&s, 3, 3), vec![(0, 2)]);
    assert_eq!(s.feed(HIT), Progress::Done);
    assert_eq!(laid(&s, 3, 3), vec![(0, 2), (1, 2)]);
}

#[test]
fn a_finished_scan_takes_no_more_tokens() {
    let mut s = Scanner::new(1, 6, 1, false, at(0, 0)).unwrap();
    assert_eq!(s.feed(MISS), Progress::Going);
    assert_eq!(s.feed(MISS), Progress::Going);
    assert_eq!(s.feed(HIT), Progress::Done);
    assert_eq!(laid(&s, 6, 1), vec![(2, 0)]);
    assert_eq!(s.feed(HIT), Progress::Done);
    assert_eq!(s.feed(HIT), Progress::Done);
    assert_eq!(s.progress(), Progress::Done);
    assert_eq!(laid(&s, 6, 1), vec![(2, 0)]);
}

#[test]
fn the_scan_starts_over_after_the_last_tile() {
    let mut s = Scanner::new(2, 3, 2, false, at(0, 0)).unwrap();
    // Columns 0 and 1 are safe; the tiles (2, 0) and (2, 1) come fifth and sixth.
    let tokens = [MISS, MISS, MISS, MISS, HIT, MISS];
    for t in tokens {
        assert_eq!(s.feed(t), Progress::Going);
    }
    assert_eq!(laid(&s, 3, 2), vec![(2, 0)]);
    // The second sweep: a hit on the mine laid before lays nothing new.
    let again = [HIT, HIT, HIT, HIT, HIT];
    for t in again {
        assert_eq!(s.feed(t), Progress::Going);
    }
    assert_eq!(laid(&s, 3, 2), vec![(2, 0)]);
    assert_eq!(s.feed(HIT), Progress::Done);
    assert_eq!(laid(&s, 3, 2), vec![(2, 0), (2, 1)]);
}

#[test]
fn a_seeded_scan_keeps_two_columns_and_two_rows_free() {
    let mut s = Scanner::new(4, 4, 4, true, at(3, 3)).unwrap();
    let mut steps = 0;
    while s.feed(HIT) == Progress::Going {
        steps += 1;
    }
    assert_eq!(steps, 15);
    assert_eq!(laid(&s, 4, 4), vec![(2, 2), (2, 3), (3, 2), (3, 3)]);
}

#[test]
fn a_scan_without_hits_gives_up_after_the_last_sweep() {
    let mut s = Scanner::new(3, 3, 1, false, at(0, 0)).unwrap();
    let draws = MAX_SWEEPS * 9;
    for _ in 0..draws - 1 {
        assert_eq!(s.feed(MISS), Progress::Going);
    }
    assert_eq!(s.feed(MISS), Progress::GivenUp);
    assert_eq!(s.feed(HIT), Progress::GivenUp);
    assert_eq!(s.progress(), Progress::GivenUp);
    assert_eq!(laid(&s, 3, 3), vec![]);
}

#[test]
fn a_scan_can_lay_its_last_mine_with_its_last_token() {
    let mut s = Scanner::new(2, 2, 1, false, at(5, 5)).unwrap();
    let draws = MAX_SWEEPS * 4;
    for _ in 0..draws - 1 {
        assert_eq!(s.feed(MISS), Progress::Going);
    }
    assert_eq!(s.feed(HIT), Progress::Done);
    assert_eq!(laid(&s, 2, 2), vec![(1, 1)]);
}

#[test]
fn eligible_tiles_lie_outside_the_safe_zone() {
    let random = Scanner::new(9, 9, 10, false, at(4, 4)).unwrap();
    assert!(!random.eligible(at(4, 4)));
    assert!(!random.eligible(at(3, 3)));
    assert!(!random.eligible(at(5, 5)));
    assert!(!random.eligible(at(3, 5)));
    assert!(random.eligible(at(2, 4)));
    assert!(random.eligible(at(4, 6)));
    assert!(random.eligible(at(0, 0)));
    assert!(!random.eligible(at(9, 0)));
    assert!(!random.eligible(at(0, 9)));
    assert_eq!(random.count_eligible(), 72);

    let seeded = Scanner::new(9, 9, 10, true, at(4, 4)).unwrap();
    assert!(seeded.eligible(at(4, 4)));
    assert!(seeded.eligible(at(2, 2)));
    assert!(!seeded.eligible(at(1, 5)));
    assert!(!seeded.eligible(at(5, 1)));
    assert!(!seeded.eligible(at(0, 0)));
    assert!(!seeded.eligible(at(9, 9)));
    assert_eq!(seeded.count_eligible(), 49);
}

#[test]
fn the_eligible_tiles_are_counted() {
    assert_eq!(Scanner::new(3, 3, 1, false, at(0, 0)).unwrap().count_eligible(), 5);
    assert_eq!(Scanner::new(3, 3, 1, false, at(1, 1)).unwrap().count_eligible(), 0);
    assert_eq!(Scanner::new(3, 3, 1, false, at(1, 0)).unwrap().count_eligible(), 3);
    assert_eq!(Scanner::new(3, 3, 1, false, at(8, 8)).unwrap().count_eligible(), 9);
    assert_eq!(Scanner::new(4, 4, 1, true, at(0, 0)).unwrap().count_eligible(), 4);
    assert_eq!(Scanner::new(2, 9, 1, true, at(0, 0)).unwrap().count_eligible(), 0);
    assert_eq!(Scanner::new(50, 120, 2520, false, at(60, 25)).unwrap().count_eligible(), 5991);
}
