//! What holds of every valid board and every move.

use vstd::prelude::*;
use crate::board::{config_fault, Board, Cell};
use crate::coord::{delta, Coord, Move};
use crate::game::{board_after_turn, run, state_after_turn, GameState};
use crate::movement::MoveOutcome;

verus! {

/// A step from a cell of the grid ends on a cell of the grid.
pub proof fn lemma_step_stays_on_grid(board: Board, from: Coord, movement: Move)
    requires
        board.in_bounds(from),
    ensures
        board.in_bounds(board.step(from, movement)),
{
}

/// A step that moves at all moves by exactly the delta of its direction.
pub proof fn lemma_step_moves_by_delta(board: Board, from: Coord, movement: Move)
    requires
        board.step(from, movement) != from,
    ensures
        board.step(from, movement).row == from.row + delta(movement).0,
        board.step(from, movement).column == from.column + delta(movement).1,
{
}

/// Invariant preservation: a move on a valid board gives a valid board, and
/// it leaves the terrain, and with it the targets, as they were.
pub proof fn lemma_move_keeps_valid(board: Board, movement: Move)
    requires
        board.valid(),
    ensures
        board.after(movement).valid(),
        board.after(movement).terrain == board.terrain,
        board.after(movement).targets() == board.targets(),
{
    let next = board.next(movement);
    let new = board.after(movement);
    lemma_step_stays_on_grid(board, board.player, movement);
    lemma_step_stays_on_grid(board, next, movement);
    if board.outcome(movement) == MoveOutcome::PlayerPushedBox {
        assert forall|i: int| 0 <= i < new.boxes.len() implies new.in_bounds(
            #[trigger] new.boxes[i],
        ) && new.cell(new.boxes[i]) != Cell::Wall by {
            assert(board.in_bounds(board.boxes[i]));
        }
        assert forall|i: int, j: int|
            0 <= i < new.boxes.len() && 0 <= j < new.boxes.len() && i != j implies new.boxes[i]
            != new.boxes[j] by {
            assert(board.boxes[i] != board.boxes[j]);
            assert(board.boxes.contains(board.boxes[i]) && board.boxes.contains(board.boxes[j]));
        }
        assert(!new.boxes.contains(next));
    }
    assert(new.targets() =~= board.targets());
}

/// Blocked-move idempotence: a blocked move leaves the board as it was, so
/// the same move is blocked again.
pub proof fn lemma_blocked_move_changes_nothing(board: Board, movement: Move)
    requires
        board.outcome(movement) == MoveOutcome::Blocked,
    ensures
        board.after(movement) == board,
        board.after(movement).outcome(movement) == MoveOutcome::Blocked,
{
}

/// A move without a push takes the player one cell in its direction and
/// changes nothing else.
pub proof fn lemma_walk_moves_player_only(board: Board, movement: Move)
    requires
        board.outcome(movement) == MoveOutcome::PlayerMoved,
    ensures
        board.after(movement).player.row == board.player.row + delta(movement).0,
        board.after(movement).player.column == board.player.column + delta(movement).1,
        board.after(movement).boxes == board.boxes,
        board.after(movement).terrain == board.terrain,
{
}

/// Push conservation: a push moves exactly one box, the one at index
/// `pushed`, by one cell in the direction of the move; the player takes the
/// cell that this box left; no other box moves and the terrain stays.
pub proof fn lemma_push_moves_one_box(board: Board, movement: Move) -> (pushed: int)
    requires
        board.valid(),
        board.outcome(movement) == MoveOutcome::PlayerPushedBox,
    ensures
        0 <= pushed < board.boxes.len(),
        board.after(movement).boxes.len() == board.boxes.len(),
        board.after(movement).boxes[pushed].row == board.boxes[pushed].row + delta(movement).0,
        board.after(movement).boxes[pushed].column == board.boxes[pushed].column + delta(
            movement,
        ).1,
        forall|i: int|
            0 <= i < board.boxes.len() && i != pushed ==> board.after(movement).boxes[i]
                == board.boxes[i],
        board.after(movement).player == board.boxes[pushed],
        board.after(movement).player.row == board.player.row + delta(movement).0,
        board.after(movement).player.column == board.player.column + delta(movement).1,
        board.after(movement).terrain == board.terrain,
{
    let next = board.next(movement);
    let pushed = choose|i: int| 0 <= i < board.boxes.len() && board.boxes[i] == next;
    pushed
}

/// The parts of a board are accepted exactly where a player is given and
/// the parts make a valid board.
pub proof fn lemma_accepted_iff_valid(
    terrain: Seq<Seq<Cell>>,
    player: Option<Coord>,
    boxes: Seq<Coord>,
)
    ensures
        config_fault(terrain, player, boxes) is None <==> player is Some && (Board {
            terrain,
            player: player->0,
            boxes,
        }).valid(),
{
}

/// A turn on a valid board gives a valid board with the same terrain.
pub proof fn lemma_turn_keeps_valid(board: Board, state: GameState, input: Seq<char>)
    requires
        board.valid(),
    ensures
        board_after_turn(board, state, input).valid(),
        board_after_turn(board, state, input).terrain == board.terrain,
{
    lemma_move_keeps_valid(board, crate::movement::direction_of(input)->0);
}

/// Once the game is won or quit, no command changes the board or the state.
pub proof fn lemma_final_states_stay(board: Board, state: GameState, input: Seq<char>)
    requires
        state != GameState::Playing,
    ensures
        board_after_turn(board, state, input) == board,
        state_after_turn(board, state, input) == state,
{
}

/// However many turns are played on a valid board, the board stays valid
/// and its terrain stays as it was.
pub proof fn lemma_run_keeps_valid(board: Board, state: GameState, commands: Seq<Seq<char>>)
    requires
        board.valid(),
    ensures
        run(board, state, commands).0.valid(),
        run(board, state, commands).0.terrain == board.terrain,
    decreases commands.len(),
{
    if commands.len() > 0 {
        lemma_run_keeps_valid(board, state, commands.drop_last());
        let (earlier_board, earlier_state) = run(board, state, commands.drop_last());
        lemma_turn_keeps_valid(earlier_board, earlier_state, commands.last());
    }
}

/// A session that started in play ends as won only on a board on which every
/// target holds a box.
pub proof fn lemma_won_means_covered(board: Board, commands: Seq<Seq<char>>)
    ensures
        run(board, GameState::Playing, commands).1 == GameState::Won ==> run(
            board,
            GameState::Playing,
            commands,
        ).0.won(),
    decreases commands.len(),
{
    if commands.len() > 0 {
        lemma_won_means_covered(board, commands.drop_last());
    }
}

} // verus!
