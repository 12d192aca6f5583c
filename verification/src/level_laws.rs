//! What holds of every level text.

use vstd::prelude::*;
use vstd::arithmetic::div_mod::{lemma_div_pos_is_pos, lemma_fundamental_div_mod, lemma_mod_pos_bound};
use crate::board::{before, config_fault, row_major, Board, Cell, ConfigFault, SokobanError};
use crate::coord::Coord;
use crate::level::{
    cell_of, cell_of_index, cells_showing, shows, text_board, text_terrain, without_enters,
    BOX_ON_TARGET_STR, BOX_STR, PLAYER_STR,
};

verus! {

/// The index of the symbol that describes a cell on a grid `columns` wide.
pub open spec fn index_of_cell(at: Coord, columns: nat) -> int {
    at.row * columns + at.column
}

/// Whether a text shows `object` on the cell `at` of a grid of `rows` by
/// `columns` cells.
pub open spec fn shown_at(text: Seq<char>, object: Seq<char>, rows: nat, columns: nat, at: Coord) -> bool {
    &&& at.row < rows
    &&& at.column < columns
    &&& index_of_cell(at, columns) < text.len()
    &&& shows(text, object, index_of_cell(at, columns))
}

/// On a grid `columns` wide with at most `rows` rows, the symbol at `index`
/// describes a cell of the grid, and that cell is described by no other
/// symbol.
pub proof fn lemma_cell_of_index(index: int, rows: nat, columns: nat)
    requires
        0 <= index < rows * columns,
        rows <= usize::MAX,
        columns <= usize::MAX,
    ensures
        cell_of_index(index, columns as int).row == index / (columns as int),
        cell_of_index(index, columns as int).column == index % (columns as int),
        cell_of_index(index, columns as int).row < rows,
        cell_of_index(index, columns as int).column < columns,
        index_of_cell(cell_of_index(index, columns as int), columns) == index,
{
    let c = columns as int;
    assert(c > 0) by (nonlinear_arith)
        requires
            0 <= index < rows * c,
            c >= 0,
    ;
    lemma_fundamental_div_mod(index, c);
    lemma_mod_pos_bound(index, c);
    lemma_div_pos_is_pos(index, c);
    let q = index / c;
    let r = index % c;
    assert(q < rows) by (nonlinear_arith)
        requires
            index == c * q + r,
            0 <= r,
            index < rows * c,
            c > 0,
    ;
    assert(q * c == c * q) by (nonlinear_arith);
}

/// The symbol that describes a cell of the grid has an index below the
/// number of cells, and it describes this cell.
pub proof fn lemma_index_of_cell(at: Coord, rows: nat, columns: nat)
    requires
        at.row < rows,
        at.column < columns,
    ensures
        0 <= index_of_cell(at, columns) < rows * columns,
        cell_of_index(index_of_cell(at, columns), columns as int) == at,
{
    let c = columns as int;
    let index = index_of_cell(at, columns);
    assert(0 <= at.row * c) by (nonlinear_arith)
        requires
            c > 0,
    ;
    assert(at.row * c + at.column < rows * c) by (nonlinear_arith)
        requires
            at.row < rows,
            at.column < c,
    ;
    vstd::arithmetic::div_mod::lemma_fundamental_div_mod_converse(
        index,
        c,
        at.row as int,
        at.column as int,
    );
}

/// A symbol with a smaller index describes a cell that comes earlier in
/// row-major order.
pub proof fn lemma_cells_in_index_order(first: int, second: int, rows: nat, columns: nat)
    requires
        0 <= first < second < rows * columns,
        rows <= usize::MAX,
        columns <= usize::MAX,
    ensures
        before(cell_of_index(first, columns as int), cell_of_index(second, columns as int)),
{
    lemma_cell_of_index(first, rows, columns);
    lemma_cell_of_index(second, rows, columns);
    let c = columns as int;
    let a = cell_of_index(first, c);
    let b = cell_of_index(second, c);
    assert(!(a.row > b.row)) by (nonlinear_arith)
        requires
            a.row * c + a.column < b.row * c + b.column,
            a.column >= 0,
            b.column < c,
    ;
}

/// The cells that a search finds are exactly the cells on which the text
/// shows the object, and they come in row-major order, each once.
pub proof fn lemma_cells_showing(text: Seq<char>, object: Seq<char>, rows: nat, columns: nat, upto: nat)
    requires
        upto <= text.len(),
        upto <= rows * columns,
        rows <= usize::MAX,
        columns <= usize::MAX,
    ensures
        row_major(cells_showing(text, object, columns, upto)),
        cells_showing(text, object, columns, upto).no_duplicates(),
        forall|at: Coord|
            #![trigger cells_showing(text, object, columns, upto).contains(at)]
            #![trigger shown_at(text, object, rows, columns, at)]
            cells_showing(text, object, columns, upto).contains(at) <==> shown_at(
                text,
                object,
                rows,
                columns,
                at,
            ) && index_of_cell(at, columns) < upto,
    decreases upto,
{
    broadcast use vstd::seq_lib::lemma_seq_contains_after_push;

    let found = cells_showing(text, object, columns, upto);
    if upto > 0 {
        let last = upto - 1;
        let earlier = cells_showing(text, object, columns, last as nat);
        let here = cell_of_index(last, columns as int);
        lemma_cells_showing(text, object, rows, columns, last as nat);
        lemma_cell_of_index(last, rows, columns);
        assert forall|at: Coord| earlier.contains(at) implies before(at, here) by {
            lemma_index_of_cell(at, rows, columns);
            lemma_cells_in_index_order(index_of_cell(at, columns), last, rows, columns);
        }
        assert forall|at: Coord|
            #![trigger found.contains(at)]
            #![trigger shown_at(text, object, rows, columns, at)]
            found.contains(at) <==> shown_at(text, object, rows, columns, at) && index_of_cell(
                at,
                columns,
            ) < upto by {
            if at.row < rows && at.column < columns {
                lemma_index_of_cell(at, rows, columns);
            }
        }
        assert forall|i: int, j: int| 0 <= i < j < found.len() implies before(
            #[trigger] found[i],
            #[trigger] found[j],
        ) by {
            if j == earlier.len() {
                assert(earlier.contains(earlier[i]));
            } else {
                assert(before(earlier[i], earlier[j]));
            }
        }
    }
    assert forall|i: int, j: int| 0 <= i < found.len() && 0 <= j < found.len() && i != j implies found[i]
        != found[j] by {
        assert(before(found[i], found[j]) || before(found[j], found[i]));
    }
}

/// The three symbols that stand for the player and the boxes.
pub proof fn lemma_object_symbols()
    ensures
        PLAYER_STR@ == seq!['P'],
        BOX_STR@ == seq!['B'],
        BOX_ON_TARGET_STR@ == seq!['*'],
{
    reveal_strlit("P");
    reveal_strlit("B");
    reveal_strlit("*");
}

/// A level text makes a board exactly where, without its line ends, it
/// holds one symbol for each cell and shows the player once. A text of
/// another length is refused as not rectangular; then one that shows the
/// player more than once, or not at all, for that. A text cannot put a box or
/// the player on a wall, outside the grid or on one another.
pub proof fn lemma_text_board(input: Seq<char>, rows: nat, columns: nat)
    requires
        rows <= usize::MAX,
        columns <= usize::MAX,
    ensures
        ({
            let text = without_enters(input);
            let players = cells_showing(text, PLAYER_STR@, columns, rows * columns);
            match text_board(input, rows, columns) {
                Ok(board) => text.len() == rows * columns && players.len() == 1 && board.valid(),
                Err(SokobanError::ConfigError(fault)) => if text.len() != rows * columns {
                    fault == ConfigFault::NotRectangular
                } else if players.len() > 1 {
                    fault == ConfigFault::DuplicatePlayer
                } else {
                    players.len() == 0 && fault == ConfigFault::MissingPlayer
                },
            }
        }),
{
    let text = without_enters(input);
    let cells = rows * columns;
    let players = cells_showing(text, PLAYER_STR@, columns, cells);
    let plain = cells_showing(text, BOX_STR@, columns, cells);
    let covering = cells_showing(text, BOX_ON_TARGET_STR@, columns, cells);
    let boxes = plain + covering;
    let terrain = text_terrain(text, rows, columns);
    if text.len() == cells && players.len() <= 1 {
        lemma_object_symbols();
        lemma_cells_showing(text, PLAYER_STR@, rows, columns, cells);
        lemma_cells_showing(text, BOX_STR@, rows, columns, cells);
        lemma_cells_showing(text, BOX_ON_TARGET_STR@, rows, columns, cells);
        let player = if players.len() == 1 {
            Some(players[0])
        } else {
            None
        };
        let board = Board { terrain, player: player.unwrap_or(Coord { row: 0, column: 0 }), boxes };
        assert forall|i: int| 0 <= i < boxes.len() implies board.in_bounds(#[trigger] boxes[i])
            && board.cell(boxes[i]) != Cell::Wall && (players.len() == 1 ==> boxes[i] != players[0]) by {
            let at = boxes[i];
            if i < plain.len() {
                assert(plain.contains(at));
            } else {
                assert(covering.contains(at));
            }
            lemma_index_of_cell(at, rows, columns);
            assert(terrain[at.row as int][at.column as int] == cell_of(
                text[index_of_cell(at, columns)],
            ));
            if players.len() == 1 {
                assert(players.contains(players[0]));
            }
        }
        assert forall|i: int, j: int| 0 <= i < boxes.len() && 0 <= j < boxes.len() && i != j implies boxes[i]
            != boxes[j] by {
            if i < plain.len() {
                assert(plain.contains(boxes[i]));
            } else {
                assert(covering.contains(boxes[i]));
            }
            if j < plain.len() {
                assert(plain.contains(boxes[j]));
            } else {
                assert(covering.contains(boxes[j]));
            }
        }
        if players.len() == 1 {
            let at = players[0];
            assert(players.contains(at));
            lemma_index_of_cell(at, rows, columns);
            assert(terrain[at.row as int][at.column as int] == cell_of(
                text[index_of_cell(at, columns)],
            ));
            crate::laws::lemma_accepted_iff_valid(terrain, player, boxes);
        }
    }
}

} // verus!
