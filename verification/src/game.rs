//! A game session: a level is loaded, then each command token is one turn,
//! until the puzzle is won or the player quits.

use vstd::prelude::*;
use crate::board::{Board, ConfigFault, Sokoban, SokobanError};
use crate::level::{columns, enter_count, has_lines_of_width, lines_of_width, rows, text_board};
use crate::movement::{
    direction_of, is_direction, is_direction_token, lemma_direction_tokens, process_input,
    process_move, same_text, won_game, MoveOutcome,
};

verus! {

/// The command token that ends the game.
pub const QUIT: &'static str = "QUIT";

/// Where a session stands. `Won` and `Quit` are final.
#[derive(Clone, Copy, Debug, PartialEq, Eq, Structural, Hash)]
pub enum GameState {
    Playing,
    Won,
    Quit,
}

/// Whether a token makes the player try a move: the game is on and the token
/// is a direction.
pub open spec fn moves(state: GameState, input: Seq<char>) -> bool {
    state == GameState::Playing && is_direction(input)
}

/// The board after a turn.
pub open spec fn board_after_turn(board: Board, state: GameState, input: Seq<char>) -> Board {
    if moves(state, input) {
        board.after(direction_of(input)->0)
    } else {
        board
    }
}

/// The state after a turn. A final state stays. While the game is on, `QUIT`
/// ends it, a direction token is a move, after which the game is won if every
/// target holds a box, and every other token changes nothing.
pub open spec fn state_after_turn(board: Board, state: GameState, input: Seq<char>) -> GameState {
    if state != GameState::Playing {
        state
    } else if input == QUIT@ {
        GameState::Quit
    } else if is_direction(input) && board.after(direction_of(input)->0).won() {
        GameState::Won
    } else {
        GameState::Playing
    }
}

/// What the move of a turn came to, if the turn was a move.
pub open spec fn outcome_of_turn(board: Board, state: GameState, input: Seq<char>) -> Option<
    MoveOutcome,
> {
    if moves(state, input) {
        Some(board.outcome(direction_of(input)->0))
    } else {
        None
    }
}

/// The board and the state after a sequence of turns.
pub open spec fn run(board: Board, state: GameState, commands: Seq<Seq<char>>) -> (Board, GameState)
    decreases commands.len(),
{
    if commands.len() == 0 {
        (board, state)
    } else {
        let (earlier_board, earlier_state) = run(board, state, commands.drop_last());
        (
            board_after_turn(earlier_board, earlier_state, commands.last()),
            state_after_turn(earlier_board, earlier_state, commands.last()),
        )
    }
}

/// The command tokens as texts.
pub open spec fn command_texts(commands: Seq<String>) -> Seq<Seq<char>> {
    Seq::new(commands.len(), |i: int| commands[i]@)
}

/// The board that a level describes, or the reason for which it describes
/// none. The number of rows is the number of line ends among the bytes of
/// the level, and the number of columns is what is left of the bytes of one
/// line without its line end. A level without a line end, or one whose lines
/// are not all equally long, is not rectangular.
pub open spec fn level_board(level: Seq<char>) -> Result<Board, SokobanError> {
    let bytes = vstd::utf8::encode_utf8(level);
    let rows = enter_count(bytes);
    if rows == 0 || !lines_of_width(bytes, bytes.len() as int / rows as int) {
        Err(SokobanError::ConfigError(ConfigFault::NotRectangular))
    } else {
        text_board(level, rows, (bytes.len() / rows - 1) as nat)
    }
}

/// `QUIT` is no direction token.
pub proof fn lemma_quit_is_no_direction()
    ensures
        !is_direction(QUIT@),
        direction_of(QUIT@) is None,
{
    reveal_strlit("W");
    reveal_strlit("A");
    reveal_strlit("S");
    reveal_strlit("D");
    reveal_strlit("QUIT");
    assert(QUIT@.len() == 4 && crate::movement::UP@.len() == 1);
}

/// Whether a token is a command: a direction or `QUIT`.
pub fn is_command(input: &str) -> (known: bool)
    ensures
        known == (is_direction(input@) || input@ == QUIT@),
{
    is_direction_token(input) || same_text(input, QUIT)
}

/// Loads a level: every line of the text is one row of the grid and ends
/// with a line end, and all lines are equally long.
pub fn load_level(input: &String) -> (made: Result<Sokoban, SokobanError>)
    ensures
        match made {
            Ok(sokoban) => sokoban.wf() && level_board(input@) == Ok::<Board, SokobanError>(
                sokoban@,
            ),
            Err(error) => level_board(input@) == Err::<Board, SokobanError>(error),
        },
{
    let bytes = input.as_str().as_bytes();
    let row_count: usize = rows(bytes);
    if row_count == 0 {
        return Err(SokobanError::ConfigError(ConfigFault::NotRectangular));
    }
    proof {
        bytes@.lemma_filter_len(|byte: u8| byte == crate::level::ENTER_U8);
    }
    let column_count: usize = columns(bytes.len(), &row_count);
    if !has_lines_of_width(bytes, column_count + 1) {
        return Err(SokobanError::ConfigError(ConfigFault::NotRectangular));
    }
    Sokoban::new(input.clone(), row_count, column_count)
}

/// Plays one turn: the transition of the game for one command token.
///
/// Returns the new state and, where the turn was a move, what the move came
/// to. See [`state_after_turn`].
pub fn step(sokoban: &mut Sokoban, state: GameState, input: &str) -> (turn: (
    GameState,
    Option<MoveOutcome>,
))
    requires
        old(sokoban).wf(),
    ensures
        final(sokoban).wf(),
        final(sokoban)@ == board_after_turn(old(sokoban)@, state, input@),
        turn.0 == state_after_turn(old(sokoban)@, state, input@),
        turn.1 == outcome_of_turn(old(sokoban)@, state, input@),
{
    match state {
        GameState::Playing => {},
        _ => {
            return (state, None);
        },
    }
    if same_text(input, QUIT) {
        proof {
            lemma_quit_is_no_direction();
        }
        return (GameState::Quit, None);
    }
    if !is_direction_token(input) {
        return (GameState::Playing, None);
    }
    let outcome = process_move(sokoban, process_input(input));
    if won_game(sokoban) {
        (GameState::Won, Some(outcome))
    } else {
        (GameState::Playing, Some(outcome))
    }
}

/// Plays a whole session on a level: loads it, then takes the command tokens
/// one by one as turns. Returns the board and the state at the end.
pub fn play(input: &String, commands: &Vec<String>) -> (played: Result<
    (Sokoban, GameState),
    SokobanError,
>)
    ensures
        match played {
            Ok((sokoban, state)) => {
                &&& sokoban.wf()
                &&& level_board(input@) is Ok
                &&& (sokoban@, state) == run(
                    level_board(input@)->Ok_0,
                    GameState::Playing,
                    command_texts(commands@),
                )
            },
            Err(error) => level_board(input@) == Err::<Board, SokobanError>(error),
        },
{
    let mut sokoban = match load_level(input) {
        Ok(sokoban) => sokoban,
        Err(error) => {
            return Err(error);
        },
    };
    let ghost start = sokoban@;
    let mut state = GameState::Playing;
    let mut i: usize = 0;
    while i < commands.len()
        invariant
            i <= commands.len(),
            sokoban.wf(),
            (sokoban@, state) == run(
                start,
                GameState::Playing,
                command_texts(commands@).take(i as int),
            ),
        decreases commands.len() - i,
    {
        proof {
            let texts = command_texts(commands@);
            assert(texts.take(i + 1).drop_last() == texts.take(i as int));
        }
        let turn = step(&mut sokoban, state, commands[i].as_str());
        state = turn.0;
        i += 1;
    }
    proof {
        let texts = command_texts(commands@);
        assert(texts.take(texts.len() as int) == texts);
    }
    Ok((sokoban, state))
}

} // verus!
