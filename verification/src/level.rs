//! Levels as text: one symbol per cell, the rows of the grid one after
//! another, each closed by a line end.

use vstd::prelude::*;
use crate::board::{checked_board, grid_view, Board, Cell, ConfigFault, Sokoban, SokobanError};
use crate::coord::Coord;

verus! {

/// The symbol of a wall cell.
pub const WALL: char = '#';

/// The symbol of a target cell with nothing on it.
pub const TARGET: char = 'T';

/// The symbol of a target cell with a box on it.
pub const BOX_ON_TARGET: char = '*';

/// The symbol of the player, as the object of a search.
pub const PLAYER_STR: &'static str = "P";

/// The symbol of a box on plain floor, as the object of a search.
pub const BOX_STR: &'static str = "B";

/// The symbol of a box on a target, as the object of a search.
pub const BOX_ON_TARGET_STR: &'static str = "*";

/// The byte that ends a line.
pub const ENTER_U8: u8 = 10;

/// Whether a character is part of a line end.
pub open spec fn is_enter(symbol: char) -> bool {
    symbol == '\n' || symbol == '\r'
}

/// A text without its line ends.
pub open spec fn without_enters(text: Seq<char>) -> Seq<char> {
    text.filter(|symbol: char| !is_enter(symbol))
}

/// The number of line ends among the bytes.
pub open spec fn enter_count(bytes: Seq<u8>) -> nat {
    bytes.filter(|byte: u8| byte == ENTER_U8).len()
}

/// The ground that a symbol stands for. The symbols of the player and of a
/// box on plain floor, like every unknown symbol, stand on floor.
pub open spec fn cell_of(symbol: char) -> Cell {
    if symbol == WALL {
        Cell::Wall
    } else if symbol == TARGET || symbol == BOX_ON_TARGET {
        Cell::Target
    } else {
        Cell::Floor
    }
}

/// The ground of the cell that the symbol at `index` describes; floor where
/// the text has no such symbol.
pub open spec fn symbol_cell(text: Seq<char>, index: int) -> Cell {
    if 0 <= index < text.len() {
        cell_of(text[index])
    } else {
        Cell::Floor
    }
}

/// The grid of `rows` by `columns` cells that a text without line ends
/// describes, row after row.
pub open spec fn text_terrain(text: Seq<char>, rows: nat, columns: nat) -> Seq<Seq<Cell>> {
    Seq::new(rows, |r: int| Seq::new(columns, |c: int| symbol_cell(text, r * columns + c)))
}

/// Whether `object` is the one symbol at `index` of the text.
pub open spec fn shows(text: Seq<char>, object: Seq<char>, index: int) -> bool {
    object.len() == 1 && object[0] == text[index]
}

/// The cell that the symbol at `index` describes on a grid `columns` wide.
pub open spec fn cell_of_index(index: int, columns: int) -> Coord {
    Coord { row: (index / columns) as usize, column: (index % columns) as usize }
}

/// How many symbols of a text of `length` symbols describe cells of a grid of
/// `rows` by `columns` cells.
pub open spec fn cells_described(length: nat, rows: nat, columns: nat) -> nat {
    if length <= rows * columns {
        length
    } else {
        rows * columns
    }
}

/// The cells, in row-major order, that the first `upto` symbols of the text
/// show `object` on.
pub open spec fn cells_showing(text: Seq<char>, object: Seq<char>, columns: nat, upto: nat) -> Seq<
    Coord,
>
    decreases upto,
{
    if upto == 0 {
        Seq::empty()
    } else {
        let earlier = cells_showing(text, object, columns, (upto - 1) as nat);
        if shows(text, object, upto - 1) {
            earlier.push(cell_of_index(upto - 1, columns as int))
        } else {
            earlier
        }
    }
}

/// The characters of a text, one by one.
fn to_chars(text: &str) -> (symbols: Vec<char>)
    ensures
        symbols@ == text@,
{
    broadcast use vstd::string::group_string_axioms;

    let mut symbols: Vec<char> = Vec::new();
    for symbol in walk: text.chars()
        invariant
            walk.seq() == text@,
            symbols@ == text@.take(walk.index()),
    {
        symbols.push(symbol);
    }
    symbols
}

/// The characters of a text that are no line ends.
fn kept_symbols(text: &str) -> (kept: Vec<char>)
    ensures
        kept@ == without_enters(text@),
{
    broadcast use vstd::string::group_string_axioms;

    let mut kept: Vec<char> = Vec::new();
    for symbol in walk: text.chars()
        invariant
            walk.seq() == text@,
            kept@ == without_enters(text@.take(walk.index())),
    {
        proof {
            let seen = text@.take(walk.index());
            assert(text@.take(walk.index() + 1) == seen.push(symbol));
            Seq::lemma_filter_push(seen, symbol, |symbol: char| !is_enter(symbol));
        }
        if symbol != '\n' && symbol != '\r' {
            kept.push(symbol);
        }
    }
    assert(text@.take(text@.len() as int) == text@);
    kept
}

/// Removes the line ends (`'\n'` and `'\r'`) from a text and keeps every
/// other character, in order.
pub fn delete_enters(input: String) -> (output: String)
    ensures
        output@ == without_enters(input@),
{
    let text = input.as_str();
    let length: usize = text.unicode_len();
    let mut output = String::new();
    let mut i: usize = 0;
    while i < length
        invariant
            i <= length,
            length == text@.len(),
            output@ == without_enters(text@.take(i as int)),
        decreases length - i,
    {
        let symbol = text.get_char(i);
        proof {
            let seen = text@.take(i as int);
            assert(text@.take(i + 1) == seen.push(symbol));
            Seq::lemma_filter_push(seen, symbol, |symbol: char| !is_enter(symbol));
        }
        if symbol != '\n' && symbol != '\r' {
            let one = text.substring_char(i, i + 1);
            output.append(one);
        }
        i += 1;
    }
    assert(text@.take(length as int) == text@);
    output
}

/// The number of lines of a level: the number of line ends among its bytes.
pub fn rows(bytes: &[u8]) -> (rows: usize)
    ensures
        rows == enter_count(bytes@),
{
    let mut rows: usize = 0;
    let mut i: usize = 0;
    while i < bytes.len()
        invariant
            i <= bytes.len(),
            rows <= i,
            rows == enter_count(bytes@.take(i as int)),
        decreases bytes.len() - i,
    {
        proof {
            let seen = bytes@.take(i as int);
            assert(bytes@.take(i + 1) == seen.push(bytes@[i as int]));
            Seq::lemma_filter_push(seen, bytes@[i as int], |byte: u8| byte == ENTER_U8);
        }
        if bytes[i] == ENTER_U8 {
            rows += 1;
        }
        i += 1;
    }
    assert(bytes@.take(bytes@.len() as int) == bytes@);
    rows
}

/// The width of a level of `total_bytes` bytes in `rows` lines of equal
/// length: the length of a line without its line end.
pub fn columns(total_bytes: usize, rows: &usize) -> (columns: usize)
    requires
        *rows > 0,
        total_bytes >= *rows,
    ensures
        columns == total_bytes / *rows - 1,
{
    assert(total_bytes / *rows >= 1) by (nonlinear_arith)
        requires
            *rows > 0,
            total_bytes >= *rows,
    ;
    (total_bytes / *rows) - 1
}

/// Whether the bytes are lines of `width` bytes each, the line end counted:
/// a byte is a line end exactly where it is the last byte of such a line.
pub open spec fn lines_of_width(bytes: Seq<u8>, width: int) -> bool {
    forall|i: int|
        0 <= i < bytes.len() ==> ((#[trigger] bytes[i]) == ENTER_U8 <==> i % width == width - 1)
}

/// Whether the bytes of a level are lines of `width` bytes each, the line
/// end counted.
pub(crate) fn has_lines_of_width(bytes: &[u8], width: usize) -> (even: bool)
    requires
        width > 0,
    ensures
        even == lines_of_width(bytes@, width as int),
{
    let mut i: usize = 0;
    let mut place: usize = 0;
    let ghost mut line: int = 0;
    while i < bytes.len()
        invariant
            width > 0,
            i <= bytes.len(),
            place < width,
            0 <= line,
            i == line * width + place,
            forall|k: int|
                0 <= k < i ==> ((#[trigger] bytes@[k]) == ENTER_U8 <==> k % (width as int) == width
                    - 1),
        decreases bytes.len() - i,
    {
        proof {
            vstd::arithmetic::div_mod::lemma_fundamental_div_mod_converse(
                i as int,
                width as int,
                line,
                place as int,
            );
        }
        let ends_line = place == width - 1;
        if (bytes[i] == ENTER_U8) != ends_line {
            return false;
        }
        if ends_line {
            proof {
                assert((line + 1) * width == line * width + width) by (nonlinear_arith);
                line = line + 1;
            }
            place = 0;
        } else {
            place += 1;
        }
        i += 1;
    }
    true
}

/// The ground that a symbol stands for.
fn read_cell(symbol: char) -> (cell: Cell)
    ensures
        cell == cell_of(symbol),
{
    if symbol == WALL {
        Cell::Wall
    } else if symbol == TARGET || symbol == BOX_ON_TARGET {
        Cell::Target
    } else {
        Cell::Floor
    }
}

/// Reads the terrain of a grid of `rows` by `columns` cells from a level
/// text. Line ends are skipped; the other symbols fill the grid row after
/// row. Cells for which the text has no symbol are floor, and symbols beyond
/// the last cell are not read.
pub fn create_map(input: String, rows: usize, columns: usize) -> (map: Vec<Vec<Cell>>)
    ensures
        grid_view(map) == text_terrain(without_enters(input@), rows as nat, columns as nat),
{
    let symbols = kept_symbols(input.as_str());
    let mut map: Vec<Vec<Cell>> = Vec::new();
    let mut next: usize = 0;
    let mut r: usize = 0;
    while r < rows
        invariant
            r <= rows,
            next <= symbols.len(),
            next == cells_described(symbols@.len(), r as nat, columns as nat),
            map@.len() == r,
            forall|k: int|
                0 <= k < r ==> (#[trigger] map@[k])@ == text_terrain(
                    symbols@,
                    rows as nat,
                    columns as nat,
                )[k],
        decreases rows - r,
    {
        let mut line: Vec<Cell> = Vec::new();
        let mut c: usize = 0;
        while c < columns
            invariant
                r < rows,
                c <= columns,
                next <= symbols.len(),
                next == (if r * columns + c <= symbols@.len() {
                    r * columns + c
                } else {
                    symbols@.len() as int
                }),
                line@.len() == c,
                forall|k: int| 0 <= k < c ==> #[trigger] line@[k] == symbol_cell(symbols@, r * columns + k),
            decreases columns - c,
        {
            if next < symbols.len() {
                line.push(read_cell(symbols[next]));
                next += 1;
            } else {
                line.push(Cell::Floor);
            }
            c += 1;
        }
        proof {
            assert((r + 1) * columns == r * columns + columns) by (nonlinear_arith);
        }
        map.push(line);
        r += 1;
    }
    map
}

/// Finds the cells of a grid of `rows` by `columns` cells on which a level
/// text shows `object`, in row-major order. The text is read as it is, one
/// symbol per cell and row after row, up to the last cell of the grid or the
/// end of the text. An `object` of more or less than one character is shown
/// nowhere. The search itself cannot fail.
pub fn get_coords(coords: String, object: &str, rows: usize, columns: usize) -> (found: Result<
    Vec<Coord>,
    SokobanError,
>)
    ensures
        found is Ok,
        found->Ok_0@ == cells_showing(
            coords@,
            object@,
            columns as nat,
            cells_described(coords@.len(), rows as nat, columns as nat),
        ),
{
    let symbols = to_chars(coords.as_str());
    let wanted = to_chars(object);
    let mut coord_vec: Vec<Coord> = Vec::new();
    if columns == 0 || wanted.len() != 1 {
        proof {
            lemma_shown_nowhere(
                coords@,
                object@,
                columns as nat,
                cells_described(coords@.len(), rows as nat, columns as nat),
            );
        }
        return Ok(coord_vec);
    }
    let mut row: usize = 0;
    let mut column: usize = 0;
    let mut next: usize = 0;
    while row < rows && next < symbols.len()
        invariant
            columns > 0,
            wanted@ == object@,
            wanted@.len() == 1,
            symbols@ == coords@,
            row <= rows,
            column < columns,
            next <= symbols.len(),
            next == row * columns + column,
            row == rows ==> column == 0,
            coord_vec@ == cells_showing(coords@, object@, columns as nat, next as nat),
        decreases symbols.len() - next,
    {
        proof {
            vstd::arithmetic::div_mod::lemma_fundamental_div_mod_converse(
                next as int,
                columns as int,
                row as int,
                column as int,
            );
        }
        if symbols[next] == wanted[0] {
            coord_vec.push(Coord { row, column });
        }
        if column == columns - 1 {
            proof {
                assert((row + 1) * columns == row * columns + columns) by (nonlinear_arith);
            }
            column = 0;
            row += 1;
        } else {
            column += 1;
        }
        next += 1;
    }
    proof {
        if row < rows {
            assert(row * columns + column < rows * columns) by (nonlinear_arith)
                requires
                    row < rows,
                    column < columns,
            ;
        }
    }
    Ok(coord_vec)
}

/// Nothing is shown on a grid without columns, nor where the object is not
/// one symbol.
proof fn lemma_shown_nowhere(text: Seq<char>, object: Seq<char>, columns: nat, upto: nat)
    requires
        object.len() != 1 || (columns == 0 && upto == 0),
    ensures
        cells_showing(text, object, columns, upto) == Seq::<Coord>::empty(),
    decreases upto,
{
    if upto > 0 {
        lemma_shown_nowhere(text, object, columns, (upto - 1) as nat);
    }
}

/// The board that a level text describes on a grid of `rows` by `columns`
/// cells, or the reason for which it describes none.
///
/// Without its line ends the text must hold one symbol for each cell, and
/// the symbol of the player exactly once. The boxes are those on plain floor,
/// in row-major order, and after them those on targets.
pub open spec fn text_board(input: Seq<char>, rows: nat, columns: nat) -> Result<
    Board,
    SokobanError,
> {
    let text = without_enters(input);
    let players = cells_showing(text, PLAYER_STR@, columns, rows * columns);
    let boxes = cells_showing(text, BOX_STR@, columns, rows * columns) + cells_showing(
        text,
        BOX_ON_TARGET_STR@,
        columns,
        rows * columns,
    );
    if text.len() != rows * columns {
        Err(SokobanError::ConfigError(ConfigFault::NotRectangular))
    } else if players.len() > 1 {
        Err(SokobanError::ConfigError(ConfigFault::DuplicatePlayer))
    } else {
        checked_board(
            text_terrain(text, rows, columns),
            if players.len() == 1 {
                Some(players[0])
            } else {
                None
            },
            boxes,
        )
    }
}

impl Sokoban {
    /// Makes the board that a level text describes on a grid of `rows` by
    /// `columns` cells.
    ///
    /// The text is refused as not rectangular where, without its line ends,
    /// it does not hold exactly one symbol for each cell; then where it shows
    /// the player more than once, or not at all.
    pub fn new(input: String, rows: usize, columns: usize) -> (made: Result<Sokoban, SokobanError>)
        ensures
            match made {
                Ok(sokoban) => sokoban.wf() && text_board(input@, rows as nat, columns as nat)
                    == Ok::<Board, SokobanError>(sokoban@),
                Err(error) => text_board(input@, rows as nat, columns as nat) == Err::<
                    Board,
                    SokobanError,
                >(error),
            },
    {
        let text = delete_enters(input.clone());
        let length: usize = text.as_str().unicode_len();
        match rows.checked_mul(columns) {
            Some(cells) if cells == length => {},
            _ => {
                return Err(SokobanError::ConfigError(ConfigFault::NotRectangular));
            },
        }
        let map = create_map(input, rows, columns);
        let players = match get_coords(text.clone(), PLAYER_STR, rows, columns) {
            Ok(players) => players,
            Err(error) => {
                return Err(error);
            },
        };
        if players.len() > 1 {
            return Err(SokobanError::ConfigError(ConfigFault::DuplicatePlayer));
        }
        let mut boxes_coords = match get_coords(text.clone(), BOX_STR, rows, columns) {
            Ok(boxes) => boxes,
            Err(error) => {
                return Err(error);
            },
        };
        let mut boxes_on_target = match get_coords(text, BOX_ON_TARGET_STR, rows, columns) {
            Ok(boxes) => boxes,
            Err(error) => {
                return Err(error);
            },
        };
        boxes_coords.append(&mut boxes_on_target);
        let user_coords = if players.len() == 1 {
            Some(players[0])
        } else {
            None
        };
        Sokoban::from_parts(map, user_coords, boxes_coords)
    }
}

} // verus!
