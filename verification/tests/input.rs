use rustsweeper::board::GameState;
use rustsweeper::game::{GameContainer, GameError};
use rustsweeper::input::{action_for, Action, MouseButton};
use rustsweeper::neighbors::neighbors_of;
use rustsweeper::presets::{preset, Settings, PRESETS};
use rustsweeper::queries::TileFace;
use rustsweeper::tile::Coordinate;

fn at(x: usize, y: usize) -> Coordinate {
    Coordinate::new(x, y)
}

fn pairs(list: Vec<Coordinate>) -> Vec<(usize, usize)> {
    list.iter().map(|c| (c.x, c.y)).collect()
}

#[test]
fn buttons_ask_for_moves() {
    assert_eq!(action_for(MouseButton::Left, false), Some(Action::Reveal));
    assert_eq!(action_for(MouseButton::Left, true), Some(Action::Chord));
    assert_eq!(action_for(MouseButton::Right, false), Some(Action::ToggleFlag));
    assert_eq!(action_for(MouseButton::Right, true), Some(Action::Chord));
    assert_eq!(action_for(MouseButton::Middle, false), Some(Action::Chord));
    assert_eq!(action_for(MouseButton::Middle, true), Some(Action::Chord));
    assert_eq!(action_for(MouseButton::Other, false), None);
    assert_eq!(action_for(MouseButton::Other, true), None);
}

#[test]
fn apply_makes_the_move_it_is_given() {
    let mut g = GameContainer::with_mines(3, 3, &vec![at(0, 0)]).unwrap();
    assert_eq!(g.apply(Action::Reveal, at(1, 1)), Ok(GameState::InProgress));
    assert!(g.tile_at(at(1, 1)).unwrap().is_revealed);
    assert_eq!(g.revealed_count(), 1);
    assert_eq!(g.apply(Action::ToggleFlag, at(0, 0)), Ok(GameState::InProgress));
    assert_eq!(g.flagged_count(), 1);
    assert_eq!(g.apply(Action::Chord, at(1, 1)), Ok(GameState::Won));
    assert_eq!(g.revealed_count(), 8);
    assert_eq!(g.apply(Action::Reveal, at(3, 3)), Err(GameError::OutOfBounds));
    assert_eq!(g.apply(Action::ToggleFlag, at(0, 3)), Err(GameError::OutOfBounds));
    assert_eq!(g.apply(Action::Chord, at(3, 0)), Err(GameError::OutOfBounds));
}

#[test]
fn apply_reports_a_failed_placement() {
    let mut g = GameContainer::new(2, 2, 1, None).unwrap();
    assert_eq!(g.apply(Action::Chord, at(0, 0)), Ok(GameState::NotStarted));
    assert_eq!(g.apply(Action::ToggleFlag, at(0, 0)), Ok(GameState::NotStarted));
    assert_eq!(g.flagged_count(), 1);
    assert_eq!(g.apply(Action::Reveal, at(0, 0)), Err(GameError::Unplaceable));
    assert_eq!(g.state(), GameState::NotStarted);
    assert_eq!(g.flagged_count(), 1);
}

#[test]
fn presets_grow_from_novice_to_unreal() {
    assert_eq!(PRESETS, 7);
    assert_eq!(preset(0), Some(Settings { cols: 9, rows: 9, mines: 10 }));
    assert_eq!(preset(1), Some(Settings { cols: 16, rows: 16, mines: 40 }));
    assert_eq!(preset(2), Some(Settings { cols: 30, rows: 16, mines: 99 }));
    assert_eq!(preset(3), Some(Settings { cols: 40, rows: 24, mines: 250 }));
    assert_eq!(preset(4), Some(Settings { cols: 60, rows: 35, mines: 691 }));
    assert_eq!(preset(5), Some(Settings { cols: 82, rows: 44, mines: 1334 }));
    assert_eq!(preset(6), Some(Settings { cols: 120, rows: 50, mines: 2520 }));
    assert_eq!(preset(7), None);
    assert_eq!(preset(usize::MAX), None);
}

#[test]
fn every_preset_makes_a_game() {
    for level in 0..PRESETS {
        let s = preset(level).unwrap();
        let g = GameContainer::new(s.rows, s.cols, s.mines, None).unwrap();
        assert_eq!((g.cols(), g.rows(), g.mine_count()), (s.cols, s.rows, s.mines));
        assert_eq!(g.mines_remaining(), s.mines as isize);
    }
}

#[test]
fn neighbors_of_an_inner_tile_come_column_by_column() {
    assert_eq!(
        pairs(neighbors_of(at(4, 7), 9, 9)),
        vec![(3, 6), (3, 7), (3, 8), (4, 6), (4, 8), (5, 6), (5, 7), (5, 8)]
    );
}

#[test]
fn neighbors_of_corners_and_edges_stay_on_the_grid() {
    assert_eq!(pairs(neighbors_of(at(0, 0), 3, 4)), vec![(0, 1), (1, 0), (1, 1)]);
    assert_eq!(pairs(neighbors_of(at(2, 3), 3, 4)), vec![(1, 2), (1, 3), (2, 2)]);
    assert_eq!(pairs(neighbors_of(at(0, 3), 3, 4)), vec![(0, 2), (1, 2), (1, 3)]);
    assert_eq!(pairs(neighbors_of(at(2, 0), 3, 4)), vec![(1, 0), (1, 1), (2, 1)]);
    assert_eq!(
        pairs(neighbors_of(at(1, 0), 3, 4)),
        vec![(0, 0), (0, 1), (1, 1), (2, 0), (2, 1)]
    );
    assert_eq!(pairs(neighbors_of(at(0, 0), 1, 1)), vec![]);
    assert_eq!(pairs(neighbors_of(at(0, 0), 1, 2)), vec![(0, 1)]);
}

#[test]
fn neighbors_of_a_tile_off_the_grid_are_the_grid_tiles_that_touch_it() {
    assert_eq!(pairs(neighbors_of(at(3, 1), 3, 3)), vec![(2, 0), (2, 1), (2, 2)]);
    assert_eq!(pairs(neighbors_of(at(3, 3), 3, 3)), vec![(2, 2)]);
    assert_eq!(pairs(neighbors_of(at(5, 5), 3, 3)), vec![]);
    assert_eq!(pairs(neighbors_of(at(usize::MAX, usize::MAX), 3, 3)), vec![]);
    assert_eq!(pairs(neighbors_of(at(0, 0), 0, 0)), vec![]);
}

#[test]
fn each_face_has_its_place_on_the_sprite_sheet() {
    assert_eq!(TileFace::Empty.sprite_index(), 0);
    assert_eq!(TileFace::Hidden.sprite_index(), 1);
    assert_eq!(TileFace::Flagged.sprite_index(), 2);
    assert_eq!(TileFace::Number(1).sprite_index(), 3);
    assert_eq!(TileFace::Number(8).sprite_index(), 10);
    assert_eq!(TileFace::Number(255).sprite_index(), 257);
    assert_eq!(TileFace::Mine.sprite_index(), 1);
}
