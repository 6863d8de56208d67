use rustsweeper::board::GameState;
use rustsweeper::game::{GameContainer, GameError};
use rustsweeper::queries::TileFace;
use rustsweeper::tile::Coordinate;

fn at(x: usize, y: usize) -> Coordinate {
    Coordinate::new(x, y)
}

fn game(rows: usize, cols: usize, mines: &[(usize, usize)]) -> GameContainer {
    let list: Vec<Coordinate> = mines.iter().map(|&(x, y)| Coordinate::new(x, y)).collect();
    GameContainer::with_mines(rows, cols, &list).unwrap()
}

fn revealed(g: &GameContainer) -> Vec<(usize, usize)> {
    let mut out = Vec::new();
    for (x, column) in g.tile_array().iter().enumerate() {
        for (y, tile) in column.iter().enumerate() {
            if tile.is_revealed {
                out.push((x, y));
            }
        }
    }
    out
}

fn numbers(g: &GameContainer) -> Vec<Vec<Option<u8>>> {
    g.tile_array().iter().map(|column| column.iter().map(|t| t.number).collect()).collect()
}

#[test]
fn with_mines_lays_exactly_the_named_mines() {
    let g = game(3, 4, &[(0, 0), (3, 2), (0, 0)]);
    assert_eq!(g.rows(), 3);
    assert_eq!(g.cols(), 4);
    assert_eq!(g.mine_count(), 2);
    assert_eq!(g.state(), GameState::InProgress);
    assert_eq!(g.revealed_count(), 0);
    assert_eq!(g.seed(), &None);
    for (x, column) in g.tile_array().iter().enumerate() {
        for (y, tile) in column.iter().enumerate() {
            assert_eq!(tile.is_a_mine, (x, y) == (0, 0) || (x, y) == (3, 2));
            assert_eq!(tile.coordinates, at(x, y));
        }
    }
}

#[test]
fn with_mines_reports_each_error() {
    let one = vec![at(0, 0)];
    assert_eq!(GameContainer::with_mines(0, 3, &one).err(), Some(GameError::InvalidDimensions));
    assert_eq!(GameContainer::with_mines(3, 0, &one).err(), Some(GameError::InvalidDimensions));
    assert_eq!(
        GameContainer::with_mines(2, 2, &vec![at(0, 0), at(2, 0)]).err(),
        Some(GameError::OutOfBounds)
    );
    assert_eq!(
        GameContainer::with_mines(2, 2, &vec![at(0, 2)]).err(),
        Some(GameError::OutOfBounds)
    );
    assert_eq!(GameContainer::with_mines(2, 2, &vec![]).err(), Some(GameError::InvalidMineCount));
    assert_eq!(
        GameContainer::with_mines(1, 2, &vec![at(0, 0), at(1, 0)]).err(),
        Some(GameError::InvalidMineCount)
    );
    assert_eq!(GameContainer::with_mines(1, 1, &one).err(), Some(GameError::InvalidMineCount));
}

#[test]
fn numbers_count_the_mines_around_each_tile() {
    // Columns 0..4, rows 0..3; mines at (0,0), (1,0), (2,2).
    let g = game(3, 4, &[(0, 0), (1, 0), (2, 2)]);
    let n = numbers(&g);
    assert_eq!(n[0], vec![None, Some(2), None]);
    assert_eq!(n[1], vec![None, Some(3), Some(1)]);
    assert_eq!(n[2], vec![Some(1), Some(2), None]);
    assert_eq!(n[3], vec![None, Some(1), Some(1)]);
}

#[test]
fn a_tile_ringed_by_mines_shows_eight() {
    let g = game(
        3,
        3,
        &[(0, 0), (0, 1), (0, 2), (1, 0), (1, 2), (2, 0), (2, 1), (2, 2)],
    );
    assert_eq!(g.tile_at(at(1, 1)).unwrap().number, Some(8));
    assert_eq!(g.mine_count(), 8);
}

#[test]
fn two_by_two_reveal_next_to_the_mine_stops_at_the_number() {
    let mut g = game(2, 2, &[(0, 0)]);
    assert_eq!(g.reveal_tile_at(at(1, 1)), Ok(GameState::InProgress));
    assert_eq!(g.tile_at(at(1, 1)).unwrap().number, Some(1));
    assert_eq!(revealed(&g), vec![(1, 1)]);
    assert_eq!(g.revealed_count(), 1);
}

#[test]
fn flood_reveals_the_empty_region_and_its_numbered_border() {
    // One row of seven tiles with a mine in the middle.
    let mut g = game(1, 7, &[(3, 0)]);
    assert_eq!(g.reveal_tile_at(at(0, 0)), Ok(GameState::InProgress));
    assert_eq!(revealed(&g), vec![(0, 0), (1, 0), (2, 0)]);
    assert_eq!(g.revealed_count(), 3);
    assert_eq!(g.tile_at(at(2, 0)).unwrap().number, Some(1));
    assert_eq!(g.reveal_tile_at(at(6, 0)), Ok(GameState::Won));
    assert_eq!(revealed(&g), vec![(0, 0), (1, 0), (2, 0), (4, 0), (5, 0), (6, 0)]);
    assert_eq!(g.revealed_count(), 6);
    assert!(!g.tile_at(at(3, 0)).unwrap().is_revealed);
}

#[test]
fn flood_goes_round_corners_and_wins_when_all_safe_tiles_show() {
    let mut g = game(4, 4, &[(0, 0), (3, 3)]);
    assert_eq!(g.reveal_tile_at(at(3, 0)), Ok(GameState::Won));
    assert_eq!(g.revealed_count(), 14);
    assert!(!g.tile_at(at(0, 0)).unwrap().is_revealed);
    assert!(!g.tile_at(at(3, 3)).unwrap().is_revealed);
}

#[test]
fn flood_does_not_pass_a_flag() {
    let mut g = game(1, 7, &[(6, 0)]);
    assert_eq!(g.toggle_flag_at(at(2, 0)), Ok(()));
    assert_eq!(g.reveal_tile_at(at(0, 0)), Ok(GameState::InProgress));
    assert_eq!(revealed(&g), vec![(0, 0), (1, 0)]);
    assert!(g.tile_at(at(2, 0)).unwrap().is_flagged);
    assert_eq!(g.revealed_count(), 2);
}

#[test]
fn revealing_a_revealed_tile_changes_nothing() {
    let mut g = game(2, 2, &[(0, 0)]);
    g.reveal_tile_at(at(1, 1)).unwrap();
    let before = g.tile_array().clone();
    assert_eq!(g.reveal_tile_at(at(1, 1)), Ok(GameState::InProgress));
    assert_eq!(g.tile_array(), &before);
    assert_eq!(g.revealed_count(), 1);
    assert_eq!(g.flagged_count(), 0);
}

#[test]
fn revealing_a_flagged_tile_changes_nothing() {
    let mut g = game(2, 2, &[(0, 0)]);
    g.toggle_flag_at(at(0, 0)).unwrap();
    g.toggle_flag_at(at(1, 0)).unwrap();
    let before = g.tile_array().clone();
    assert_eq!(g.reveal_tile_at(at(0, 0)), Ok(GameState::InProgress));
    assert_eq!(g.reveal_tile_at(at(1, 0)), Ok(GameState::InProgress));
    assert_eq!(g.tile_array(), &before);
    assert_eq!(g.revealed_count(), 0);
    assert_eq!(g.flagged_count(), 2);
}

#[test]
fn revealing_a_mine_loses_and_marks_only_that_tile() {
    let mut g = game(3, 3, &[(1, 1)]);
    g.reveal_tile_at(at(0, 0)).unwrap();
    let before = g.tile_array().clone();
    assert_eq!(g.reveal_tile_at(at(1, 1)), Ok(GameState::Lost));
    assert_eq!(g.state(), GameState::Lost);
    for (x, column) in g.tile_array().iter().enumerate() {
        for (y, tile) in column.iter().enumerate() {
            if (x, y) == (1, 1) {
                assert!(tile.is_revealed && tile.is_a_mine);
            } else {
                assert_eq!(tile, &before[x][y]);
            }
        }
    }
    assert_eq!(g.revealed_count(), 2);
    assert_eq!(g.face_at(at(1, 1)), Ok(TileFace::Mine));
}

#[test]
fn nothing_moves_once_the_game_is_lost() {
    let mut g = game(3, 3, &[(1, 1)]);
    g.reveal_tile_at(at(0, 0)).unwrap();
    g.toggle_flag_at(at(2, 2)).unwrap();
    g.reveal_tile_at(at(1, 1)).unwrap();
    let before = g.tile_array().clone();
    assert_eq!(g.reveal_tile_at(at(2, 0)), Ok(GameState::Lost));
    assert_eq!(g.toggle_flag_at(at(2, 0)), Ok(()));
    assert_eq!(g.toggle_flag_at(at(2, 2)), Ok(()));
    assert_eq!(g.chord_at(at(0, 0)), Ok(GameState::Lost));
    assert_eq!(g.tile_array(), &before);
    assert_eq!(g.revealed_count(), 2);
    assert_eq!(g.flagged_count(), 1);
    assert_eq!(g.state(), GameState::Lost);
}

#[test]
fn nothing_moves_once_the_game_is_won() {
    let mut g = game(3, 3, &[(2, 2)]);
    assert_eq!(g.reveal_tile_at(at(0, 0)), Ok(GameState::Won));
    assert_eq!(g.revealed_count(), 8);
    let before = g.tile_array().clone();
    assert_eq!(g.reveal_tile_at(at(2, 2)), Ok(GameState::Won));
    assert_eq!(g.toggle_flag_at(at(2, 2)), Ok(()));
    assert_eq!(g.chord_at(at(1, 1)), Ok(GameState::Won));
    assert_eq!(g.tile_array(), &before);
    assert_eq!(g.flagged_count(), 0);
    assert_eq!(g.state(), GameState::Won);
}

#[test]
fn the_game_is_not_won_before_the_last_safe_tile() {
    let mut g = game(2, 2, &[(0, 0)]);
    assert_eq!(g.reveal_tile_at(at(1, 1)), Ok(GameState::InProgress));
    assert_eq!(g.reveal_tile_at(at(0, 1)), Ok(GameState::InProgress));
    assert_eq!(g.revealed_count(), 2);
    assert_eq!(g.reveal_tile_at(at(1, 0)), Ok(GameState::Won));
    assert_eq!(g.revealed_count(), 3);
    assert_eq!(g.revealed_count(), g.rows() * g.cols() - g.mine_count());
}

#[test]
fn a_lost_game_with_every_safe_tile_but_one_shown_is_not_won() {
    let mut g = game(2, 2, &[(0, 0)]);
    g.reveal_tile_at(at(1, 1)).unwrap();
    g.reveal_tile_at(at(0, 1)).unwrap();
    assert_eq!(g.reveal_tile_at(at(0, 0)), Ok(GameState::Lost));
    assert_eq!(g.revealed_count(), 3);
    assert_eq!(g.state(), GameState::Lost);
}

#[test]
fn toggling_a_flag_twice_leaves_the_tile_unflagged() {
    let mut g = game(2, 2, &[(0, 0)]);
    let before = g.tile_array().clone();
    assert_eq!(g.toggle_flag_at(at(1, 0)), Ok(()));
    assert!(g.tile_at(at(1, 0)).unwrap().is_flagged);
    assert_eq!(g.flagged_count(), 1);
    assert_eq!(g.toggle_flag_at(at(1, 0)), Ok(()));
    assert!(!g.tile_at(at(1, 0)).unwrap().is_flagged);
    assert_eq!(g.flagged_count(), 0);
    assert_eq!(g.tile_array(), &before);
}

#[test]
fn a_revealed_tile_takes_no_flag() {
    let mut g = game(2, 2, &[(0, 0)]);
    g.reveal_tile_at(at(1, 1)).unwrap();
    assert_eq!(g.toggle_flag_at(at(1, 1)), Ok(()));
    assert!(!g.tile_at(at(1, 1)).unwrap().is_flagged);
    assert_eq!(g.flagged_count(), 0);
}

#[test]
fn more_flags_than_mines_make_the_remaining_count_negative() {
    let mut g = game(2, 2, &[(0, 0)]);
    assert_eq!(g.mines_remaining(), 1);
    g.toggle_flag_at(at(0, 0)).unwrap();
    assert_eq!(g.mines_remaining(), 0);
    g.toggle_flag_at(at(1, 0)).unwrap();
    g.toggle_flag_at(at(0, 1)).unwrap();
    assert_eq!(g.flagged_count(), 3);
    assert_eq!(g.mines_remaining(), -2);
}

#[test]
fn chord_with_the_right_flag_reveals_the_other_neighbors() {
    let mut g = game(3, 3, &[(0, 0)]);
    assert_eq!(g.reveal_tile_at(at(1, 1)), Ok(GameState::InProgress));
    assert_eq!(revealed(&g), vec![(1, 1)]);
    g.toggle_flag_at(at(0, 0)).unwrap();
    assert_eq!(g.chord_at(at(1, 1)), Ok(GameState::Won));
    assert_eq!(g.revealed_count(), 8);
    let mine = g.tile_at(at(0, 0)).unwrap();
    assert!(mine.is_flagged && !mine.is_revealed);
}

#[test]
fn chord_reveals_every_unflagged_neighbor() {
    // A mine at (0,0) and a wall of mines in column 3, which no flood passes.
    let mut g = game(5, 5, &[(0, 0), (3, 0), (3, 1), (3, 2), (3, 3), (3, 4)]);
    g.reveal_tile_at(at(1, 1)).unwrap();
    assert_eq!(revealed(&g), vec![(1, 1)]);
    g.toggle_flag_at(at(0, 0)).unwrap();
    assert_eq!(g.chord_at(at(1, 1)), Ok(GameState::InProgress));
    for &(x, y) in &[(0, 1), (0, 2), (1, 0), (1, 2), (2, 0), (2, 1), (2, 2)] {
        assert!(g.tile_at(at(x, y)).unwrap().is_revealed, "({}, {})", x, y);
    }
    assert!(!g.tile_at(at(0, 0)).unwrap().is_revealed);
    assert_eq!(g.revealed_count(), 14);
    for y in 0..5 {
        assert!(!g.tile_at(at(4, y)).unwrap().is_revealed);
    }
}

#[test]
fn chord_with_a_wrong_flag_loses_on_the_first_unflagged_mine() {
    let mut g = game(3, 3, &[(0, 0)]);
    g.reveal_tile_at(at(1, 1)).unwrap();
    g.toggle_flag_at(at(2, 2)).unwrap();
    assert_eq!(g.chord_at(at(1, 1)), Ok(GameState::Lost));
    assert_eq!(revealed(&g), vec![(0, 0), (1, 1)]);
    assert_eq!(g.revealed_count(), 2);
}

#[test]
fn chord_without_matching_flags_changes_nothing() {
    let mut g = game(3, 3, &[(0, 0)]);
    g.reveal_tile_at(at(1, 1)).unwrap();
    let before = g.tile_array().clone();
    assert_eq!(g.chord_at(at(1, 1)), Ok(GameState::InProgress));
    g.toggle_flag_at(at(0, 0)).unwrap();
    g.toggle_flag_at(at(2, 2)).unwrap();
    let flagged = g.tile_array().clone();
    assert_eq!(g.chord_at(at(1, 1)), Ok(GameState::InProgress));
    assert_eq!(g.tile_array(), &flagged);
    assert_eq!(g.revealed_count(), 1);
    assert_ne!(&before, &flagged);
}

#[test]
fn chord_on_a_hidden_or_empty_tile_changes_nothing() {
    let mut g = game(1, 7, &[(6, 0)]);
    let before = g.tile_array().clone();
    assert_eq!(g.chord_at(at(5, 0)), Ok(GameState::InProgress));
    assert_eq!(g.tile_array(), &before);
    g.toggle_flag_at(at(3, 0)).unwrap();
    g.reveal_tile_at(at(0, 0)).unwrap();
    let opened = g.tile_array().clone();
    assert_eq!(g.tile_at(at(1, 0)).unwrap().number, None);
    assert_eq!(g.chord_at(at(1, 0)), Ok(GameState::InProgress));
    assert_eq!(g.tile_array(), &opened);
}

#[test]
fn coordinates_off_the_grid_are_refused() {
    let mut g = game(2, 3, &[(0, 0)]);
    let before = g.tile_array().clone();
    assert_eq!(g.reveal_tile_at(at(3, 0)), Err(GameError::OutOfBounds));
    assert_eq!(g.reveal_tile_at(at(0, 2)), Err(GameError::OutOfBounds));
    assert_eq!(g.toggle_flag_at(at(3, 1)), Err(GameError::OutOfBounds));
    assert_eq!(g.chord_at(at(usize::MAX, usize::MAX)), Err(GameError::OutOfBounds));
    assert_eq!(g.tile_at(at(3, 0)), Err(GameError::OutOfBounds));
    assert_eq!(g.face_at(at(0, 2)), Err(GameError::OutOfBounds));
    assert_eq!(g.tile_array(), &before);
    assert_eq!(g.state(), GameState::InProgress);
    assert!(g.in_bounds(at(2, 1)));
    assert!(!g.in_bounds(at(2, 2)));
}

#[test]
fn faces_show_what_the_player_may_see() {
    let mut g = game(1, 7, &[(3, 0)]);
    assert_eq!(g.face_at(at(3, 0)), Ok(TileFace::Hidden));
    g.toggle_flag_at(at(3, 0)).unwrap();
    assert_eq!(g.face_at(at(3, 0)), Ok(TileFace::Flagged));
    g.reveal_tile_at(at(0, 0)).unwrap();
    assert_eq!(g.face_at(at(0, 0)), Ok(TileFace::Empty));
    assert_eq!(g.face_at(at(2, 0)), Ok(TileFace::Number(1)));
    assert_eq!(g.face_at(at(4, 0)), Ok(TileFace::Hidden));
    assert_eq!(g.tile_at(at(2, 0)).unwrap().face(), TileFace::Number(1));
}
