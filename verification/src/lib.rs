//! A turn-based box-pushing puzzle on a rectangular grid.
//!
//! A player walks over floor and target cells, is stopped by walls, and
//! pushes one box at a time by walking into it. The puzzle is won when every
//! target cell holds a box. The heart of the crate is the move resolver,
//! [`process_move`], whose contract states the outcome and the new board for
//! every valid board and every direction.

pub mod board;
pub mod coord;
pub mod game;
pub mod laws;
pub mod level;
pub mod level_laws;
pub mod movement;

pub use board::{
    initialize_coords, is_object, Board, Cell, ConfigFault, Sokoban, SokobanError,
};
pub use coord::{get_deltas, get_next_valid_coord, Coord, Move};
pub use game::{is_command, load_level, play, step, GameState, QUIT};
pub use level::{
    columns, create_map, delete_enters, get_coords, rows, BOX_ON_TARGET, BOX_ON_TARGET_STR,
    BOX_STR, ENTER_U8, PLAYER_STR, TARGET, WALL,
};
pub use movement::{
    is_direction_token, process_input, process_move, won_game, MoveOutcome, DOWN, LEFT, RIGHT, UP,
};
