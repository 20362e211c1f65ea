use element_capture::board::{Coordinate, Element, GameError, Grid, Interactable, Player, Tile};
use element_capture::engine::{advance_tile, handle_tap, update_tile, TapOutcome, Turn};

fn coord(row: i32, col: i32) -> Coordinate {
    Coordinate { row, col }
}

/// A 3x3 board with (0,0)=Earth/Player1 and (1,0)=Water/Player2, Player1 to
/// move, interaction states freshly computed.
fn scenario_board() -> (Grid, Turn) {
    let mut g = Grid::initialize(3, 3);
    let t = Turn::new();
    g.set_tile(coord(0, 0), Element::Earth, Player::Player1).unwrap();
    g.set_tile(coord(1, 0), Element::Water, Player::Player2).unwrap();
    update_tile(&mut g, &t);
    (g, t)
}

#[test]
fn neighbor_symmetry_examples() {
    let a = coord(2, 3);
    let up = coord(1, 3);
    let right = coord(2, 4);
    let diagonal = coord(3, 4);
    let far = coord(2, 5);
    assert!(a.is_neighbor(&up) && up.is_neighbor(&a));
    assert!(a.is_neighbor(&right) && right.is_neighbor(&a));
    assert!(!a.is_neighbor(&diagonal) && !diagonal.is_neighbor(&a));
    assert!(!a.is_neighbor(&far) && !far.is_neighbor(&a));
    assert!(!a.is_neighbor(&a));
}

#[test]
fn beats_cycle_table() {
    let (earth, fire, water) = (Element::Earth, Element::Fire, Element::Water);
    assert!(earth.can_attack(&water));
    assert!(fire.can_attack(&earth));
    assert!(water.can_attack(&fire));
    assert!(!earth.can_attack(&earth));
    assert!(!fire.can_attack(&fire));
    assert!(!water.can_attack(&water));
    assert!(!water.can_attack(&earth));
    assert!(!earth.can_attack(&fire));
    assert!(!fire.can_attack(&water));
}

#[test]
fn capture_preserves_count_and_coordinates() {
    let (mut g, _t) = scenario_board();
    let before: Vec<Coordinate> = g.tiles.iter().map(|tile| tile.coord).collect();
    let src = g.tile_at(coord(0, 0)).unwrap();
    g.apply_capture(&src, coord(1, 0)).unwrap();
    assert_eq!(g.tiles.len(), 9);
    let after: Vec<Coordinate> = g.tiles.iter().map(|tile| tile.coord).collect();
    assert_eq!(before, after);
    let dst = g.tile_at(coord(1, 0)).unwrap();
    assert_eq!(dst.element, Element::Earth);
    assert_eq!(dst.player, Player::Player1);
}

#[test]
fn tile_at_out_of_bounds() {
    let (g, _t) = scenario_board();
    assert_eq!(g.tile_at(coord(-1, 0)), Err(GameError::OutOfBounds));
    assert_eq!(g.tile_at(coord(0, 3)), Err(GameError::OutOfBounds));
    assert_eq!(g.tile_at(coord(3, 0)), Err(GameError::OutOfBounds));
}

#[test]
fn tap_out_of_bounds_mutates_nothing() {
    let (mut g, mut t) = scenario_board();
    let r = handle_tap(&mut g, &mut t, coord(5, 5));
    assert_eq!(r, Err(GameError::OutOfBounds));
    assert_eq!(t.player, Player::Player1);
    assert!(t.src_tile.is_none());
    assert_eq!(g.tile_at(coord(0, 0)).unwrap().element, Element::Earth);
}

#[test]
fn neutral_active_player_is_an_integrity_violation() {
    let mut g = Grid::initialize(3, 3);
    let mut t = Turn { player: Player::Neutral, src_tile: None };
    update_tile(&mut g, &t);
    let r = handle_tap(&mut g, &mut t, coord(0, 0));
    assert_eq!(r, Err(GameError::IntegrityViolation));
    assert_eq!(t.player, Player::Neutral);
    assert!(t.src_tile.is_none());
}

#[test]
fn scenario_a_select_then_capture() {
    let (mut g, mut t) = scenario_board();

    let r = handle_tap(&mut g, &mut t, coord(0, 0));
    assert_eq!(r, Ok(TapOutcome::Selected));
    let snapshot: Tile = t.src_tile.unwrap();
    assert_eq!(snapshot.element, Element::Earth);
    assert_eq!(snapshot.player, Player::Player1);
    assert_eq!(snapshot.coord, coord(0, 0));
    assert_eq!(g.tile_at(coord(0, 0)).unwrap().interactable, Interactable::Active);
    assert_eq!(g.tile_at(coord(1, 0)).unwrap().interactable, Interactable::Clickable);

    let r = handle_tap(&mut g, &mut t, coord(1, 0));
    assert_eq!(r, Ok(TapOutcome::Captured));
    let dst = g.tile_at(coord(1, 0)).unwrap();
    assert_eq!(dst.element, Element::Earth);
    assert_eq!(dst.player, Player::Player1);
    assert_eq!(t.player, Player::Player2);
    assert!(t.src_tile.is_none());
}

#[test]
fn scenario_b_deselect_leaves_everything_unchanged() {
    let (mut g, mut t) = scenario_board();

    let r = handle_tap(&mut g, &mut t, coord(0, 0));
    assert_eq!(r, Ok(TapOutcome::Selected));
    let r = handle_tap(&mut g, &mut t, coord(0, 0));
    assert_eq!(r, Ok(TapOutcome::Deselected));
    assert!(t.src_tile.is_none());
    assert_eq!(t.player, Player::Player1);
    let tile = g.tile_at(coord(0, 0)).unwrap();
    assert_eq!(tile.element, Element::Earth);
    assert_eq!(tile.player, Player::Player1);
}

#[test]
fn scenario_c_foreign_tile_is_ignored() {
    let (mut g, mut t) = scenario_board();

    let r = handle_tap(&mut g, &mut t, coord(1, 0));
    assert_eq!(r, Ok(TapOutcome::Ignored));
    assert!(t.src_tile.is_none());
    assert_eq!(t.player, Player::Player1);
}

#[test]
fn scenario_d_illegal_target_keeps_selection() {
    let (mut g, mut t) = scenario_board();
    // A neighbor of the source whose element Earth does not beat.
    g.set_tile(coord(0, 1), Element::Fire, Player::Player2).unwrap();
    update_tile(&mut g, &t);

    let r = handle_tap(&mut g, &mut t, coord(0, 0));
    assert_eq!(r, Ok(TapOutcome::Selected));
    let r = handle_tap(&mut g, &mut t, coord(0, 1));
    assert_eq!(r, Ok(TapOutcome::Ignored));
    let snapshot = t.src_tile.unwrap();
    assert_eq!(snapshot.coord, coord(0, 0));
    assert_eq!(t.player, Player::Player1);
    let target = g.tile_at(coord(0, 1)).unwrap();
    assert_eq!(target.element, Element::Fire);
    assert_eq!(target.player, Player::Player2);
}

#[test]
fn turn_alternates_over_two_captures() {
    let (mut g, mut t) = scenario_board();
    g.set_tile(coord(2, 0), Element::Fire, Player::Player2).unwrap();
    update_tile(&mut g, &t);

    handle_tap(&mut g, &mut t, coord(0, 0)).unwrap();
    assert_eq!(handle_tap(&mut g, &mut t, coord(1, 0)), Ok(TapOutcome::Captured));
    assert_eq!(t.player, Player::Player2);

    // Player2's Fire tile beats the Earth now sitting on (1,0).
    assert_eq!(handle_tap(&mut g, &mut t, coord(2, 0)), Ok(TapOutcome::Selected));
    assert_eq!(handle_tap(&mut g, &mut t, coord(1, 0)), Ok(TapOutcome::Captured));
    assert_eq!(t.player, Player::Player1);
    let dst = g.tile_at(coord(1, 0)).unwrap();
    assert_eq!(dst.element, Element::Fire);
    assert_eq!(dst.player, Player::Player2);
}

#[test]
fn advance_tile_without_selection_is_an_integrity_violation() {
    let (mut g, mut t) = scenario_board();
    let r = advance_tile(&mut g, &mut t, coord(1, 0));
    assert_eq!(r, Err(GameError::IntegrityViolation));
    assert_eq!(t.player, Player::Player1);
}

#[test]
fn initialize_assigns_by_bands() {
    let g = Grid::initialize(8, 6);
    assert_eq!(g.rows, 8);
    assert_eq!(g.cols, 6);
    assert_eq!(g.tiles.len(), 48);
    for row in 0..8 {
        for col in 0..6 {
            let tile = g.tile_at(coord(row, col)).unwrap();
            assert_eq!(tile.coord, coord(row, col));
            assert_eq!(tile.interactable, Interactable::Inert);
            let element = if col == 0 || col == 5 {
                Element::Fire
            } else if col == 1 || col == 4 {
                Element::Earth
            } else {
                Element::Water
            };
            assert_eq!(tile.element, element);
            let player = if row < 3 {
                Player::Player1
            } else if row >= 5 {
                Player::Player2
            } else {
                Player::Neutral
            };
            assert_eq!(tile.player, player);
        }
    }
}

#[test]
fn initialize_random_keeps_owner_bands() {
    let g = Grid::initialize_random(8, 6);
    assert_eq!(g.tiles.len(), 48);
    for row in 0..8 {
        for col in 0..6 {
            let tile = g.tile_at(coord(row, col)).unwrap();
            assert_eq!(tile.coord, coord(row, col));
            assert_eq!(tile.interactable, Interactable::Inert);
            let player = if row < 3 {
                Player::Player1
            } else if row >= 5 {
                Player::Player2
            } else {
                Player::Neutral
            };
            assert_eq!(tile.player, player);
        }
    }
}

#[test]
fn turn_starts_with_player1_and_no_selection() {
    let t = Turn::new();
    assert_eq!(t.player, Player::Player1);
    assert!(t.src_tile.is_none());
}

#[test]
fn awaiting_source_marks_own_tiles_clickable() {
    let (mut g, t) = scenario_board();
    update_tile(&mut g, &t);
    // Player1 owns (0,0); Player2 owns (1,0); on a 3x3 board every other
    // tile still carries the deterministic Player1 assignment.
    assert_eq!(g.tile_at(coord(0, 0)).unwrap().interactable, Interactable::Clickable);
    assert_eq!(g.tile_at(coord(1, 0)).unwrap().interactable, Interactable::Inert);
    assert_eq!(g.tile_at(coord(2, 2)).unwrap().interactable, Interactable::Clickable);
}
