use rustsweeper::board::GameState;
use rustsweeper::game::{dimensions_ok, GameContainer, GameError};
use rustsweeper::tile::{Coordinate, Tile};

#[test]
fn array_coordinates_are_properly_set() {
    // Arrange
    let g = GameContainer::new(16, 16, 40, Some("asd".to_string())).unwrap();
    let t = g.tile_array();
    assert_eq!(t[0][0].coordinates, Coordinate::new(0, 0));
    assert_eq!(t[5][2].coordinates, Coordinate::new(5, 2));
    assert_eq!(t[15][15].coordinates, Coordinate::new(15, 15));
}

#[test]
fn coordinate_new_keeps_both_parts() {
    let c = Coordinate::new(3, 7);
    assert_eq!(c.x, 3);
    assert_eq!(c.y, 7);
}

#[test]
fn coordinate_default_is_the_origin() {
    assert_eq!(Coordinate::default(), Coordinate::new(0, 0));
}

#[test]
fn tile_new_is_hidden_and_empty() {
    let t = Tile::new(Coordinate::new(2, 5));
    assert!(!t.is_revealed);
    assert!(!t.is_a_mine);
    assert!(!t.is_flagged);
    assert_eq!(t.number, None);
    assert_eq!(t.coordinates, Coordinate::new(2, 5));
}

#[test]
fn new_game_has_not_started() {
    let g = GameContainer::new(9, 12, 10, None).unwrap();
    assert_eq!(g.rows(), 9);
    assert_eq!(g.cols(), 12);
    assert_eq!(g.mine_count(), 10);
    assert_eq!(g.state(), GameState::NotStarted);
    assert_eq!(g.revealed_count(), 0);
    assert_eq!(g.flagged_count(), 0);
    assert_eq!(g.seed(), &None);
    let t = g.tile_array();
    assert_eq!(t.len(), 12);
    for column in t.iter() {
        assert_eq!(column.len(), 9);
        for tile in column.iter() {
            assert!(!tile.is_a_mine && !tile.is_revealed && !tile.is_flagged);
            assert_eq!(tile.number, None);
        }
    }
}

#[test]
fn new_rejects_empty_grids() {
    assert_eq!(GameContainer::new(0, 5, 1, None).err(), Some(GameError::InvalidDimensions));
    assert_eq!(GameContainer::new(5, 0, 1, None).err(), Some(GameError::InvalidDimensions));
    assert_eq!(GameContainer::new(0, 0, 0, None).err(), Some(GameError::InvalidDimensions));
}

#[test]
fn new_rejects_grids_too_large_to_count() {
    assert_eq!(
        GameContainer::new(usize::MAX, 2, 1, None).err(),
        Some(GameError::InvalidDimensions)
    );
}

#[test]
fn new_rejects_mine_counts_out_of_range() {
    assert_eq!(GameContainer::new(3, 3, 0, None).err(), Some(GameError::InvalidMineCount));
    assert_eq!(GameContainer::new(3, 3, 9, None).err(), Some(GameError::InvalidMineCount));
    assert_eq!(GameContainer::new(3, 3, 10, None).err(), Some(GameError::InvalidMineCount));
    assert!(GameContainer::new(3, 3, 8, None).is_ok());
    assert!(GameContainer::new(3, 3, 1, None).is_ok());
}

#[test]
fn mines_are_not_placed_before_the_first_reveal() {
    let mut g = GameContainer::new(9, 9, 10, None).unwrap();
    assert!(!g.mines_placed());
    g.toggle_flag_at(Coordinate::new(3, 3)).unwrap();
    g.chord_at(Coordinate::new(3, 3)).unwrap();
    assert!(!g.mines_placed());
    assert_eq!(g.state(), GameState::NotStarted);
    g.reveal_tile_at(Coordinate::new(0, 0)).unwrap();
    assert!(g.mines_placed());
}

#[test]
fn dimensions_are_checked_before_anything_is_made() {
    assert!(dimensions_ok(1, 1));
    assert!(dimensions_ok(50, 120));
    assert!(!dimensions_ok(0, 1));
    assert!(!dimensions_ok(1, 0));
    assert!(dimensions_ok(isize::MAX as usize, 1));
    assert!(!dimensions_ok(isize::MAX as usize, 2));
    assert!(!dimensions_ok(usize::MAX, usize::MAX));
}

#[test]
fn the_default_tile_is_fresh_at_the_origin() {
    assert_eq!(Tile::default(), Tile::new(Coordinate::default()));
    assert_eq!(Tile::default().coordinates, Coordinate::new(0, 0));
}
