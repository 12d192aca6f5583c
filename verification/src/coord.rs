//! Positions on the grid, the four directions, and one bounded step.

use vstd::prelude::*;

verus! {

/// A cell position: `row` counts from the top, `column` from the left.
#[derive(Clone, Copy, Debug, PartialEq, Eq, Structural, Hash)]
pub struct Coord {
    pub row: usize,
    pub column: usize,
}

/// A direction in which the player may try to walk.
#[derive(Clone, Copy, Debug, PartialEq, Eq, Structural, Hash)]
pub enum Move {
    Up,
    Left,
    Down,
    Right,
}

/// The change of (row, column) that one step in a direction makes.
pub open spec fn delta(movement: Move) -> (int, int) {
    match movement {
        Move::Up => (-1, 0),
        Move::Left => (0, -1),
        Move::Down => (1, 0),
        Move::Right => (0, 1),
    }
}

/// One coordinate after a step of `d`, kept where it was if the step would
/// leave `0..limit` or the range of a machine index.
pub open spec fn shift_axis(position: usize, d: int, limit: int) -> usize {
    if 0 <= position + d < limit && position + d <= usize::MAX {
        (position + d) as usize
    } else {
        position
    }
}

/// A position after a step of (`d_row`, `d_column`) on a grid of `rows` by
/// `columns` cells; each coordinate that would leave the grid stays as it was.
pub open spec fn shifted(from: Coord, d_row: int, d_column: int, rows: int, columns: int) -> Coord {
    Coord {
        row: shift_axis(from.row, d_row, rows),
        column: shift_axis(from.column, d_column, columns),
    }
}

/// The row and column change of one step in the given direction.
pub fn get_deltas(movement: Move) -> (deltas: (i8, i8))
    ensures
        deltas.0 as int == delta(movement).0,
        deltas.1 as int == delta(movement).1,
{
    match movement {
        Move::Up => (-1, 0),
        Move::Left => (0, -1),
        Move::Down => (1, 0),
        Move::Right => (0, 1),
    }
}

fn step_axis(position: usize, d: i8, limit: usize) -> (moved: usize)
    ensures
        moved == shift_axis(position, d as int, limit as int),
{
    let target: i128 = position as i128 + d as i128;
    if 0 <= target && target < limit as i128 {
        target as usize
    } else {
        position
    }
}

/// Steps from `user_coords` by the given deltas on a grid of `rows` by
/// `columns` cells. A coordinate that would leave the grid is left unchanged,
/// so a step over the edge returns the starting position.
pub fn get_next_valid_coord(
    user_coords: &Coord,
    delta_row: i8,
    delta_column: i8,
    rows: &usize,
    columns: &usize,
) -> (next: Coord)
    ensures
        next == shifted(
            *user_coords,
            delta_row as int,
            delta_column as int,
            *rows as int,
            *columns as int,
        ),
{
    Coord {
        row: step_axis(user_coords.row, delta_row, *rows),
        column: step_axis(user_coords.column, delta_column, *columns),
    }
}

} // verus!
