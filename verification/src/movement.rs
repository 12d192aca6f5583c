//! The move resolver: what one step of the player does to a board.

use vstd::prelude::*;
use crate::board::{is_listed, is_object, Board, Cell, Sokoban};
use crate::coord::{delta, get_deltas, get_next_valid_coord, shifted, Coord, Move};
use crate::laws::lemma_move_keeps_valid;

verus! {

/// What a requested move came to.
#[derive(Clone, Copy, Debug, PartialEq, Eq, Structural, Hash)]
pub enum MoveOutcome {
    /// The move could not be made; the board is as it was.
    Blocked,
    /// The player walked onto a free cell.
    PlayerMoved,
    /// The player walked onto a box's cell and pushed the box one cell on.
    PlayerPushedBox,
}

/// The boxes after the one at `from` (if any) went to `to`.
pub open spec fn boxes_after_push(boxes: Seq<Coord>, from: Coord, to: Coord) -> Seq<Coord> {
    Seq::new(
        boxes.len(),
        |i: int|
            if boxes[i] == from {
                to
            } else {
                boxes[i]
            },
    )
}

impl Board {
    /// The cell one step from `from` in the direction `movement`, or `from`
    /// itself where that step would leave the grid.
    pub open spec fn step(self, from: Coord, movement: Move) -> Coord {
        shifted(from, delta(movement).0, delta(movement).1, self.rows(), self.columns())
    }

    /// The cell that the player tries to enter.
    pub open spec fn next(self, movement: Move) -> Coord {
        self.step(self.player, movement)
    }

    /// The cell that a box on `next` would be pushed to.
    pub open spec fn beyond(self, movement: Move) -> Coord {
        self.step(self.next(movement), movement)
    }

    /// Whether nothing can enter `to` from `from`: the step left the grid, or
    /// `to` is a wall.
    pub open spec fn closed(self, from: Coord, to: Coord) -> bool {
        to == from || self.cell(to) == Cell::Wall
    }

    /// What a move in the direction `movement` comes to.
    pub open spec fn outcome(self, movement: Move) -> MoveOutcome {
        let next = self.next(movement);
        let beyond = self.beyond(movement);
        if self.closed(self.player, next) {
            MoveOutcome::Blocked
        } else if !self.has_box(next) {
            MoveOutcome::PlayerMoved
        } else if self.closed(next, beyond) || self.has_box(beyond) {
            MoveOutcome::Blocked
        } else {
            MoveOutcome::PlayerPushedBox
        }
    }

    /// The board after a move in the direction `movement`.
    pub open spec fn after(self, movement: Move) -> Board {
        match self.outcome(movement) {
            MoveOutcome::Blocked => self,
            MoveOutcome::PlayerMoved => Board { player: self.next(movement), ..self },
            MoveOutcome::PlayerPushedBox => Board {
                player: self.next(movement),
                boxes: boxes_after_push(self.boxes, self.next(movement), self.beyond(movement)),
                ..self
            },
        }
    }
}

/// Puts the player on `coords_to`.
fn move_player(coords_from: &mut Coord, coords_to: &Coord)
    ensures
        *final(coords_from) == *coords_to,
{
    coords_from.row = coords_to.row;
    coords_from.column = coords_to.column;
}

/// Moves the box that stands on `coords_from` to `coords_to`; the other
/// boxes stay, and each box keeps its place in the list.
fn move_box(boxes_coords: &mut Vec<Coord>, coords_from: &Coord, coords_to: &Coord)
    ensures
        final(boxes_coords)@ == boxes_after_push(old(boxes_coords)@, *coords_from, *coords_to),
{
    let mut i: usize = 0;
    while i < boxes_coords.len()
        invariant
            i <= boxes_coords.len(),
            boxes_coords.len() == old(boxes_coords).len(),
            forall|k: int|
                0 <= k < i ==> boxes_coords@[k] == boxes_after_push(
                    old(boxes_coords)@,
                    *coords_from,
                    *coords_to,
                )[k],
            forall|k: int| i <= k < boxes_coords.len() ==> boxes_coords@[k] == old(boxes_coords)@[k],
        decreases boxes_coords.len() - i,
    {
        if boxes_coords[i] == *coords_from {
            boxes_coords[i] = *coords_to;
        }
        i += 1;
    }
}

/// Resolves one move of the player in the direction `movement`.
///
/// The move is blocked where the next cell is outside the grid or a wall, and
/// where it holds a box that cannot be pushed on: the cell beyond it is
/// outside the grid, a wall, or holds another box. A blocked move leaves the
/// board as it was. Otherwise the player enters the next cell, and a box that
/// stood there is pushed one cell further in the same direction. The terrain
/// never changes.
pub fn process_move(sokoban: &mut Sokoban, movement: Move) -> (outcome: MoveOutcome)
    requires
        old(sokoban).wf(),
    ensures
        final(sokoban).wf(),
        outcome == old(sokoban)@.outcome(movement),
        final(sokoban)@ == old(sokoban)@.after(movement),
{
    proof {
        lemma_move_keeps_valid(sokoban@, movement);
    }
    let (delta_row, delta_column) = get_deltas(movement);
    let next_coord = get_next_valid_coord(
        &sokoban.user_coords,
        delta_row,
        delta_column,
        &sokoban.rows,
        &sokoban.columns,
    );
    if next_coord == sokoban.user_coords || is_object(&next_coord, Cell::Wall, &sokoban.map) {
        return MoveOutcome::Blocked;
    }
    if !is_listed(&next_coord, &sokoban.boxes_coords) {
        move_player(&mut sokoban.user_coords, &next_coord);
        assert(forall|at: Coord| sokoban@.is_target(at) == old(sokoban)@.is_target(at));
        return MoveOutcome::PlayerMoved;
    }
    let next_next_coord = get_next_valid_coord(
        &next_coord,
        delta_row,
        delta_column,
        &sokoban.rows,
        &sokoban.columns,
    );
    if next_next_coord == next_coord || is_object(&next_next_coord, Cell::Wall, &sokoban.map)
        || is_listed(&next_next_coord, &sokoban.boxes_coords) {
        return MoveOutcome::Blocked;
    }
    move_box(&mut sokoban.boxes_coords, &next_coord, &next_next_coord);
    move_player(&mut sokoban.user_coords, &next_coord);
    assert(forall|at: Coord| sokoban@.is_target(at) == old(sokoban)@.is_target(at));
    MoveOutcome::PlayerPushedBox
}

/// Whether every target holds a box. Boxes beyond the targets do not matter.
pub fn won_game(sokoban: &Sokoban) -> (won: bool)
    requires
        sokoban.wf(),
    ensures
        won == sokoban@.won(),
{
    let mut i: usize = 0;
    while i < sokoban.target_coords.len()
        invariant
            i <= sokoban.target_coords.len(),
            sokoban.wf(),
            forall|k: int| 0 <= k < i ==> sokoban@.has_box(#[trigger] sokoban.target_coords@[k]),
        decreases sokoban.target_coords.len() - i,
    {
        if !is_listed(&sokoban.target_coords[i], &sokoban.boxes_coords) {
            proof {
                let missed = sokoban.target_coords@[i as int];
                assert(sokoban@.targets().contains(missed) && !sokoban@.box_set().contains(missed));
            }
            return false;
        }
        i += 1;
    }
    assert forall|at: Coord| sokoban@.targets().contains(at) implies sokoban@.box_set().contains(
        at,
    ) by {
        assert(sokoban.target_coords@.contains(at));
    }
    true
}

/// The command token for a step up.
pub const UP: &'static str = "W";

/// The command token for a step to the left.
pub const LEFT: &'static str = "A";

/// The command token for a step down.
pub const DOWN: &'static str = "S";

/// The command token for a step to the right.
pub const RIGHT: &'static str = "D";

/// Whether two strings hold the same characters.
pub(crate) fn same_text(a: &str, b: &str) -> (same: bool)
    ensures
        same == (a@ == b@),
{
    let n: usize = a.unicode_len();
    if b.unicode_len() != n {
        return false;
    }
    let mut i: usize = 0;
    while i < n
        invariant
            i <= n,
            n == a@.len(),
            n == b@.len(),
            forall|k: int| 0 <= k < i ==> a@[k] == b@[k],
        decreases n - i,
    {
        if a.get_char(i) != b.get_char(i) {
            return false;
        }
        i += 1;
    }
    assert(a@ =~= b@);
    true
}

/// Whether a token is one of the four direction tokens.
pub open spec fn is_direction(input: Seq<char>) -> bool {
    input == UP@ || input == LEFT@ || input == DOWN@ || input == RIGHT@
}

/// The direction that a command token asks for; none for a token that is no
/// direction token.
pub open spec fn direction_of(input: Seq<char>) -> Option<Move> {
    if input == UP@ {
        Some(Move::Up)
    } else if input == LEFT@ {
        Some(Move::Left)
    } else if input == DOWN@ {
        Some(Move::Down)
    } else if input == RIGHT@ {
        Some(Move::Right)
    } else {
        None
    }
}

/// The four direction tokens differ from one another, so each asks for its
/// own direction, and only they ask for one.
pub proof fn lemma_direction_tokens()
    ensures
        UP@ != LEFT@,
        UP@ != DOWN@,
        UP@ != RIGHT@,
        LEFT@ != DOWN@,
        LEFT@ != RIGHT@,
        DOWN@ != RIGHT@,
        direction_of(UP@) == Some(Move::Up),
        direction_of(LEFT@) == Some(Move::Left),
        direction_of(DOWN@) == Some(Move::Down),
        direction_of(RIGHT@) == Some(Move::Right),
        forall|input: Seq<char>| is_direction(input) <==> #[trigger] direction_of(input) is Some,
{
    reveal_strlit("W");
    reveal_strlit("A");
    reveal_strlit("S");
    reveal_strlit("D");
    assert(UP@[0] == 'W' && LEFT@[0] == 'A' && DOWN@[0] == 'S' && RIGHT@[0] == 'D');
}

/// Whether a token is one of the four direction tokens.
pub fn is_direction_token(input: &str) -> (known: bool)
    ensures
        known == is_direction(input@),
{
    same_text(input, UP) || same_text(input, LEFT) || same_text(input, DOWN) || same_text(
        input,
        RIGHT,
    )
}

/// Reads a direction token as its direction. Every other token is to be
/// refused before it gets here: [`is_direction_token`] tells them apart.
pub fn process_input(input: &str) -> (movement: Move)
    requires
        is_direction(input@),
    ensures
        direction_of(input@) == Some(movement),
        input@ == UP@ ==> movement == Move::Up,
        input@ == LEFT@ ==> movement == Move::Left,
        input@ == DOWN@ ==> movement == Move::Down,
        input@ == RIGHT@ ==> movement == Move::Right,
{
    proof {
        lemma_direction_tokens();
    }
    if same_text(input, UP) {
        Move::Up
    } else if same_text(input, LEFT) {
        Move::Left
    } else if same_text(input, DOWN) {
        Move::Down
    } else {
        Move::Right
    }
}

} // verus!
