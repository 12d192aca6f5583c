use sokoban::{
    columns, create_map, delete_enters, get_coords, rows, Cell, ConfigFault, Coord, Sokoban,
    SokobanError, BOX_ON_TARGET_STR, BOX_STR, PLAYER_STR,
};

fn at(row: usize, column: usize) -> Coord {
    Coord { row, column }
}

const LEVEL: &str = "#####\n#PB.#\n#T*.#\n#####\n";

#[test]
fn delete_enters_removes_line_ends_only() {
    assert_eq!(delete_enters("ab\ncd\n".to_string()), "abcd");
    assert_eq!(delete_enters("ab\r\ncd\r\n".to_string()), "abcd");
    assert_eq!(delete_enters("\n\n\r".to_string()), "");
    assert_eq!(delete_enters(String::new()), "");
    assert_eq!(delete_enters("# P\tB".to_string()), "# P\tB");
    assert_eq!(delete_enters("é\nü".to_string()), "éü");
}

#[test]
fn rows_counts_line_ends() {
    assert_eq!(rows(LEVEL.as_bytes()), 4);
    assert_eq!(rows(b""), 0);
    assert_eq!(rows(b"###"), 0);
    assert_eq!(rows(b"\n\n\n"), 3);
    assert_eq!(rows(b"#\r\n#\r\n"), 2);
}

#[test]
fn columns_is_the_line_length_without_its_end() {
    assert_eq!(columns(LEVEL.len(), &4), 5);
    assert_eq!(columns(24, &4), 5);
    assert_eq!(columns(3, &3), 0);
    assert_eq!(columns(10, &3), 2);
    assert_eq!(columns(7, &1), 6);
}

#[test]
fn create_map_reads_the_terrain() {
    let map = create_map(LEVEL.to_string(), 4, 5);
    assert_eq!(
        map,
        vec![
            vec![Cell::Wall; 5],
            vec![Cell::Wall, Cell::Floor, Cell::Floor, Cell::Floor, Cell::Wall],
            vec![Cell::Wall, Cell::Target, Cell::Target, Cell::Floor, Cell::Wall],
            vec![Cell::Wall; 5],
        ]
    );
}

#[test]
fn create_map_fills_a_short_text_with_floor() {
    let map = create_map("#T\n#".to_string(), 2, 3);
    assert_eq!(
        map,
        vec![
            vec![Cell::Wall, Cell::Target, Cell::Wall],
            vec![Cell::Floor, Cell::Floor, Cell::Floor],
        ]
    );
}

#[test]
fn create_map_leaves_a_long_text_unread() {
    assert_eq!(create_map("#T#T#".to_string(), 1, 2), vec![vec![Cell::Wall, Cell::Target]]);
    assert_eq!(create_map("###".to_string(), 0, 3), Vec::<Vec<Cell>>::new());
    assert_eq!(create_map("###".to_string(), 2, 0), vec![Vec::<Cell>::new(), Vec::new()]);
}

#[test]
fn get_coords_finds_the_cells_in_row_major_order() {
    let text = delete_enters(LEVEL.to_string());
    assert_eq!(get_coords(text.clone(), BOX_STR, 4, 5), Ok(vec![at(1, 2)]));
    assert_eq!(get_coords(text.clone(), PLAYER_STR, 4, 5), Ok(vec![at(1, 1)]));
    assert_eq!(get_coords(text.clone(), BOX_ON_TARGET_STR, 4, 5), Ok(vec![at(2, 2)]));
    assert_eq!(get_coords(text.clone(), ".", 4, 5), Ok(vec![at(1, 3), at(2, 3)]));
    assert_eq!(get_coords(text, "#", 2, 5).unwrap().len(), 7);
}

#[test]
fn get_coords_goes_by_the_given_width() {
    assert_eq!(get_coords("ab.ab.".to_string(), "b", 2, 3), Ok(vec![at(0, 1), at(1, 1)]));
    assert_eq!(get_coords("ab.ab.".to_string(), "b", 3, 2), Ok(vec![at(0, 1), at(2, 0)]));
    assert_eq!(get_coords("ab.ab.".to_string(), "b", 1, 6), Ok(vec![at(0, 1), at(0, 4)]));
    assert_eq!(get_coords("ab.ab.".to_string(), "b", 6, 1), Ok(vec![at(1, 0), at(4, 0)]));
}

#[test]
fn get_coords_stops_at_the_last_cell_or_the_end_of_the_text() {
    assert_eq!(get_coords("bbbbbb".to_string(), "b", 1, 2), Ok(vec![at(0, 0), at(0, 1)]));
    assert_eq!(get_coords("bb".to_string(), "b", 3, 3), Ok(vec![at(0, 0), at(0, 1)]));
    assert_eq!(get_coords("bbbb".to_string(), "b", 0, 2), Ok(vec![]));
    assert_eq!(get_coords("bbbb".to_string(), "b", 2, 0), Ok(vec![]));
    assert_eq!(get_coords(String::new(), "b", 2, 2), Ok(vec![]));
}

#[test]
fn get_coords_finds_nothing_for_a_longer_or_empty_object() {
    assert_eq!(get_coords("abab".to_string(), "ab", 2, 2), Ok(vec![]));
    assert_eq!(get_coords("abab".to_string(), "", 2, 2), Ok(vec![]));
}

#[test]
fn get_coords_counts_line_ends_as_symbols() {
    assert_eq!(get_coords("a\nb".to_string(), "b", 1, 3), Ok(vec![at(0, 2)]));
    assert_eq!(get_coords("a\nb".to_string(), "\n", 1, 3), Ok(vec![at(0, 1)]));
}

#[test]
fn a_level_text_makes_a_board() {
    let sokoban = Sokoban::new(LEVEL.to_string(), 4, 5).unwrap();
    assert_eq!(sokoban.rows(), 4);
    assert_eq!(sokoban.columns(), 5);
    assert_eq!(sokoban.user_coords(), at(1, 1));
    assert_eq!(sokoban.boxes_coords(), &vec![at(1, 2), at(2, 2)]);
    assert_eq!(sokoban.target_coords(), &vec![at(2, 1), at(2, 2)]);
    assert_eq!(sokoban.terrain(), &create_map(LEVEL.to_string(), 4, 5));
}

#[test]
fn boxes_on_targets_come_after_the_others() {
    let sokoban = Sokoban::new("*PB*B".to_string(), 1, 5).unwrap();
    assert_eq!(sokoban.boxes_coords(), &vec![at(0, 2), at(0, 4), at(0, 0), at(0, 3)]);
    assert_eq!(sokoban.target_coords(), &vec![at(0, 0), at(0, 3)]);
}

#[test]
fn a_text_of_the_wrong_length_is_refused() {
    let refused = Err(SokobanError::ConfigError(ConfigFault::NotRectangular));
    assert_eq!(Sokoban::new(LEVEL.to_string(), 4, 4), refused);
    assert_eq!(Sokoban::new(LEVEL.to_string(), 5, 5), refused);
    assert_eq!(Sokoban::new("###\n#P\n###\n".to_string(), 3, 3), refused);
    assert_eq!(Sokoban::new("P".to_string(), usize::MAX, 2), refused);
    assert_eq!(Sokoban::new(String::new(), usize::MAX, usize::MAX), refused);
}

#[test]
fn a_text_without_player_is_refused() {
    assert_eq!(
        Sokoban::new("###\n#.#\n###\n".to_string(), 3, 3),
        Err(SokobanError::ConfigError(ConfigFault::MissingPlayer))
    );
    assert_eq!(
        Sokoban::new(String::new(), 0, 0),
        Err(SokobanError::ConfigError(ConfigFault::MissingPlayer))
    );
}

#[test]
fn a_text_with_two_players_is_refused() {
    assert_eq!(
        Sokoban::new("####\n#PP#\n####\n".to_string(), 3, 4),
        Err(SokobanError::ConfigError(ConfigFault::DuplicatePlayer))
    );
}

#[test]
fn closed_cell_level_blocks_a_step_right() {
    let mut sokoban = Sokoban::new("###\n#P#\n###\n".to_string(), 3, 3).unwrap();
    let before = sokoban.clone();
    assert_eq!(sokoban::process_move(&mut sokoban, sokoban::Move::Right), sokoban::MoveOutcome::Blocked);
    assert_eq!(sokoban, before);
}

#[test]
fn level_with_a_box_against_the_wall_blocks_a_step_right() {
    let mut sokoban = Sokoban::new("####\n#PB#\n####\n".to_string(), 3, 4).unwrap();
    assert_eq!(sokoban::process_move(&mut sokoban, sokoban::Move::Right), sokoban::MoveOutcome::Blocked);
    assert_eq!(sokoban.user_coords(), at(1, 1));
    assert_eq!(sokoban.boxes_coords(), &vec![at(1, 2)]);
}

#[test]
fn level_with_room_behind_the_box_lets_it_be_pushed() {
    let mut sokoban = Sokoban::new("#####\n#PB.#\n#####\n".to_string(), 3, 5).unwrap();
    assert_eq!(
        sokoban::process_move(&mut sokoban, sokoban::Move::Right),
        sokoban::MoveOutcome::PlayerPushedBox
    );
    assert_eq!(sokoban.user_coords(), at(1, 2));
    assert_eq!(sokoban.boxes_coords(), &vec![at(1, 3)]);
}

#[test]
fn level_with_a_target_behind_the_box_is_won_by_the_push() {
    let mut sokoban = Sokoban::new("#####\n#PBT#\n#####\n".to_string(), 3, 5).unwrap();
    assert!(!sokoban::won_game(&sokoban));
    assert_eq!(
        sokoban::process_move(&mut sokoban, sokoban::Move::Right),
        sokoban::MoveOutcome::PlayerPushedBox
    );
    assert!(sokoban::won_game(&sokoban));
    assert_eq!(sokoban.boxes_on_target_coords(), vec![at(1, 3)]);
}

#[test]
fn level_with_two_boxes_in_a_row_blocks() {
    let mut sokoban = Sokoban::new("PBB.\n".to_string(), 1, 4).unwrap();
    let before = sokoban.clone();
    assert_eq!(sokoban::process_move(&mut sokoban, sokoban::Move::Right), sokoban::MoveOutcome::Blocked);
    assert_eq!(sokoban, before);
}
