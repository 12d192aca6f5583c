use sokoban::{initialize_coords, Cell, ConfigFault, Coord, Sokoban, SokobanError};

fn at(row: usize, column: usize) -> Coord {
    Coord { row, column }
}

fn room() -> Vec<Vec<Cell>> {
    vec![
        vec![Cell::Wall, Cell::Wall, Cell::Wall, Cell::Wall, Cell::Wall],
        vec![Cell::Wall, Cell::Floor, Cell::Floor, Cell::Target, Cell::Wall],
        vec![Cell::Wall, Cell::Target, Cell::Floor, Cell::Floor, Cell::Wall],
        vec![Cell::Wall, Cell::Wall, Cell::Wall, Cell::Wall, Cell::Wall],
    ]
}

fn fault(made: Result<Sokoban, SokobanError>) -> ConfigFault {
    match made {
        Err(SokobanError::ConfigError(fault)) => fault,
        Ok(_) => panic!("the board was accepted"),
    }
}

#[test]
fn valid_parts_make_a_board_that_holds_them() {
    let sokoban = Sokoban::from_parts(room(), Some(at(1, 1)), vec![at(2, 2), at(1, 2)]).unwrap();
    assert_eq!(sokoban.rows(), 4);
    assert_eq!(sokoban.columns(), 5);
    assert_eq!(sokoban.terrain(), &room());
    assert_eq!(sokoban.user_coords(), at(1, 1));
    assert_eq!(sokoban.boxes_coords(), &vec![at(2, 2), at(1, 2)]);
    assert_eq!(sokoban.target_coords(), &vec![at(1, 3), at(2, 1)]);
}

#[test]
fn two_boxes_on_one_cell_are_refused() {
    let made = Sokoban::from_parts(room(), Some(at(1, 1)), vec![at(1, 2), at(1, 2)]);
    assert_eq!(made, Err(SokobanError::ConfigError(ConfigFault::BoxesOverlap)));
}

#[test]
fn overlap_is_found_among_many_boxes() {
    let boxes = vec![at(1, 2), at(2, 2), at(2, 3), at(2, 2)];
    assert_eq!(fault(Sokoban::from_parts(room(), Some(at(1, 1)), boxes)), ConfigFault::BoxesOverlap);
}

#[test]
fn ragged_grid_is_refused() {
    let mut map = room();
    map[2].pop();
    assert_eq!(
        fault(Sokoban::from_parts(map, Some(at(1, 1)), vec![])),
        ConfigFault::NotRectangular
    );
    let mut longer = room();
    longer[3].push(Cell::Wall);
    assert_eq!(
        fault(Sokoban::from_parts(longer, Some(at(1, 1)), vec![])),
        ConfigFault::NotRectangular
    );
}

#[test]
fn missing_player_is_refused() {
    assert_eq!(fault(Sokoban::from_parts(room(), None, vec![at(1, 2)])), ConfigFault::MissingPlayer);
}

#[test]
fn player_outside_the_grid_is_refused() {
    assert_eq!(fault(Sokoban::from_parts(room(), Some(at(4, 1)), vec![])), ConfigFault::OutOfBounds);
    assert_eq!(fault(Sokoban::from_parts(room(), Some(at(1, 5)), vec![])), ConfigFault::OutOfBounds);
}

#[test]
fn box_outside_the_grid_is_refused() {
    let boxes = vec![at(1, 2), at(9, 9)];
    assert_eq!(fault(Sokoban::from_parts(room(), Some(at(1, 1)), boxes)), ConfigFault::OutOfBounds);
}

#[test]
fn player_on_a_wall_is_refused() {
    assert_eq!(fault(Sokoban::from_parts(room(), Some(at(0, 0)), vec![])), ConfigFault::PlayerOnWall);
}

#[test]
fn box_on_a_wall_is_refused() {
    let boxes = vec![at(1, 2), at(3, 3)];
    assert_eq!(fault(Sokoban::from_parts(room(), Some(at(1, 1)), boxes)), ConfigFault::BoxOnWall);
}

#[test]
fn player_on_a_box_is_refused() {
    let boxes = vec![at(2, 2), at(1, 1)];
    assert_eq!(fault(Sokoban::from_parts(room(), Some(at(1, 1)), boxes)), ConfigFault::PlayerOnBox);
}

#[test]
fn empty_grid_has_no_place_for_a_player() {
    assert_eq!(fault(Sokoban::from_parts(vec![], Some(at(0, 0)), vec![])), ConfigFault::OutOfBounds);
    assert_eq!(fault(Sokoban::from_parts(vec![], None, vec![])), ConfigFault::MissingPlayer);
    assert_eq!(
        fault(Sokoban::from_parts(vec![vec![], vec![]], Some(at(0, 0)), vec![])),
        ConfigFault::OutOfBounds
    );
}

#[test]
fn the_first_fault_is_named() {
    let mut ragged = room();
    ragged[1].pop();
    assert_eq!(fault(Sokoban::from_parts(ragged, None, vec![at(9, 9)])), ConfigFault::NotRectangular);
    assert_eq!(
        fault(Sokoban::from_parts(room(), None, vec![at(9, 9), at(0, 0)])),
        ConfigFault::MissingPlayer
    );
    assert_eq!(
        fault(Sokoban::from_parts(room(), Some(at(0, 0)), vec![at(0, 1), at(9, 9)])),
        ConfigFault::OutOfBounds
    );
    assert_eq!(
        fault(Sokoban::from_parts(room(), Some(at(0, 0)), vec![at(0, 1), at(0, 1)])),
        ConfigFault::PlayerOnWall
    );
    assert_eq!(
        fault(Sokoban::from_parts(room(), Some(at(1, 1)), vec![at(0, 1), at(0, 1)])),
        ConfigFault::BoxOnWall
    );
    assert_eq!(
        fault(Sokoban::from_parts(room(), Some(at(1, 1)), vec![at(1, 1), at(1, 1)])),
        ConfigFault::BoxesOverlap
    );
}

#[test]
fn a_box_may_start_on_a_target() {
    let sokoban = Sokoban::from_parts(room(), Some(at(1, 1)), vec![at(1, 3)]).unwrap();
    assert_eq!(sokoban.boxes_coords(), &vec![at(1, 3)]);
    assert_eq!(sokoban.target_coords(), &vec![at(1, 3), at(2, 1)]);
}

#[test]
fn a_single_cell_makes_a_board() {
    let sokoban = Sokoban::from_parts(vec![vec![Cell::Floor]], Some(at(0, 0)), vec![]).unwrap();
    assert_eq!(sokoban.rows(), 1);
    assert_eq!(sokoban.columns(), 1);
    assert!(sokoban.target_coords().is_empty());
}

#[test]
fn initialize_coords_stamps_the_listed_cells() {
    let mut map = vec![vec![Cell::Floor; 3]; 2];
    initialize_coords(&mut map, &vec![at(0, 1), at(1, 2), at(0, 1)], Cell::Target);
    assert_eq!(
        map,
        vec![
            vec![Cell::Floor, Cell::Target, Cell::Floor],
            vec![Cell::Floor, Cell::Floor, Cell::Target],
        ]
    );
    initialize_coords(&mut map, &vec![at(0, 0), at(0, 1)], Cell::Wall);
    assert_eq!(
        map,
        vec![
            vec![Cell::Wall, Cell::Wall, Cell::Floor],
            vec![Cell::Floor, Cell::Floor, Cell::Target],
        ]
    );
}

#[test]
fn initialize_coords_passes_over_the_outside() {
    let mut map = vec![vec![Cell::Floor; 2], vec![Cell::Floor]];
    let before = map.clone();
    initialize_coords(&mut map, &vec![at(2, 0), at(0, 2), at(1, 1)], Cell::Wall);
    assert_eq!(map, before);
    initialize_coords(&mut map, &vec![], Cell::Wall);
    assert_eq!(map, before);
    initialize_coords(&mut map, &vec![at(5, 5), at(1, 0)], Cell::Wall);
    assert_eq!(map, vec![vec![Cell::Floor; 2], vec![Cell::Wall]]);
}
