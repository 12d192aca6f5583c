//! The board: an immutable terrain grid and, on top of it, the player and
//! the boxes.

use vstd::prelude::*;
use crate::coord::Coord;

verus! {

/// The ground of one cell. It is fixed when the board is built; what stands
/// on a cell (the player, a box, nothing) is kept apart from it.
#[derive(Clone, Copy, Debug, PartialEq, Eq, Structural, Hash)]
pub enum Cell {
    Wall,
    Floor,
    Target,
}

/// Why a board was refused.
#[derive(Clone, Copy, Debug, PartialEq, Eq, Structural, Hash)]
pub enum ConfigFault {
    /// The rows of the grid differ in length.
    NotRectangular,
    /// No player position was given.
    MissingPlayer,
    /// More than one player position was given.
    DuplicatePlayer,
    /// The player or a box lies outside the grid.
    OutOfBounds,
    /// The player stands on a wall cell.
    PlayerOnWall,
    /// A box sits on a wall cell.
    BoxOnWall,
    /// Two boxes share a cell.
    BoxesOverlap,
    /// The player and a box share a cell.
    PlayerOnBox,
}

/// What can go wrong in this library: only the making of a board.
#[derive(Clone, Copy, Debug, PartialEq, Eq, Structural, Hash)]
pub enum SokobanError {
    ConfigError(ConfigFault),
}

/// The mathematical board that contracts speak of.
pub struct Board {
    pub terrain: Seq<Seq<Cell>>,
    pub player: Coord,
    pub boxes: Seq<Coord>,
}

/// Row-major order on positions: `a` comes strictly before `b`.
pub open spec fn before(a: Coord, b: Coord) -> bool {
    a.row < b.row || (a.row == b.row && a.column < b.column)
}

/// The positions come in strictly increasing row-major order.
pub open spec fn row_major(cells: Seq<Coord>) -> bool {
    forall|i: int, j: int| 0 <= i < j < cells.len() ==> before(#[trigger] cells[i], #[trigger] cells[j])
}

/// The ground that `map` has at `at`, where everything outside it is wall.
pub open spec fn cell_or_wall(map: Seq<Seq<Cell>>, at: Coord) -> Cell {
    if at.row < map.len() && at.column < map[at.row as int].len() {
        map[at.row as int][at.column as int]
    } else {
        Cell::Wall
    }
}

impl Board {
    pub open spec fn rows(self) -> int {
        self.terrain.len() as int
    }

    /// The width of the grid: the length of its first row.
    pub open spec fn columns(self) -> int {
        if self.terrain.len() > 0 {
            self.terrain[0].len() as int
        } else {
            0
        }
    }

    pub open spec fn rectangular(self) -> bool {
        forall|r: int| 0 <= r < self.terrain.len() ==> (#[trigger] self.terrain[r]).len() == self.columns()
    }

    pub open spec fn in_bounds(self, at: Coord) -> bool {
        at.row < self.rows() && at.column < self.columns()
    }

    /// The ground at a position; everything outside the grid is wall.
    pub open spec fn cell(self, at: Coord) -> Cell {
        cell_or_wall(self.terrain, at)
    }

    pub open spec fn is_target(self, at: Coord) -> bool {
        self.in_bounds(at) && self.cell(at) == Cell::Target
    }

    pub open spec fn has_box(self, at: Coord) -> bool {
        self.boxes.contains(at)
    }

    /// The cells that must be covered to win.
    pub open spec fn targets(self) -> Set<Coord> {
        Set::new(|at: Coord| self.is_target(at))
    }

    /// The cells that hold a box.
    pub open spec fn box_set(self) -> Set<Coord> {
        self.boxes.to_set()
    }

    /// The boxes that sit on a target, in the order of the boxes. This is
    /// derived from the boxes and the terrain, never stored.
    pub open spec fn boxes_on_target(self) -> Seq<Coord> {
        self.boxes.filter(|at: Coord| self.is_target(at))
    }

    /// The invariants of a board in play:
    /// the grid is rectangular; the player is on the grid and not on a wall;
    /// every box is on the grid and not on a wall; no two boxes share a cell;
    /// the player shares no cell with a box.
    pub open spec fn valid(self) -> bool {
        &&& self.rectangular()
        &&& self.in_bounds(self.player)
        &&& self.cell(self.player) != Cell::Wall
        &&& forall|i: int|
            0 <= i < self.boxes.len() ==> self.in_bounds(#[trigger] self.boxes[i]) && self.cell(
                self.boxes[i],
            ) != Cell::Wall
        &&& self.boxes.no_duplicates()
        &&& !self.has_box(self.player)
    }

    /// Every target holds a box.
    pub open spec fn won(self) -> bool {
        self.targets().subset_of(self.box_set())
    }
}

/// A grid of cells as a sequence of rows.
pub open spec fn grid_view(map: Vec<Vec<Cell>>) -> Seq<Seq<Cell>> {
    Seq::new(map@.len(), |r: int| map@[r]@)
}

/// The board of one puzzle. The terrain and the targets never change after
/// construction; the player and the boxes change only through
/// [`process_move`](crate::process_move).
#[derive(Clone, Debug, PartialEq, Eq)]
pub struct Sokoban {
    pub(crate) map: Vec<Vec<Cell>>,
    pub(crate) user_coords: Coord,
    pub(crate) boxes_coords: Vec<Coord>,
    pub(crate) target_coords: Vec<Coord>,
    pub(crate) rows: usize,
    pub(crate) columns: usize,
}

impl View for Sokoban {
    type V = Board;

    open(crate) spec fn view(&self) -> Board {
        Board {
            terrain: grid_view(self.map),
            player: self.user_coords,
            boxes: self.boxes_coords@,
        }
    }
}

impl Sokoban {
    /// The board is valid, its stored dimensions are those of the grid, and
    /// its target list holds exactly the target cells, in row-major order.
    pub open(crate) spec fn wf(&self) -> bool {
        &&& self@.valid()
        &&& self.rows == self@.rows()
        &&& self.columns == self@.columns()
        &&& row_major(self.target_coords@)
        &&& forall|at: Coord| self.target_coords@.contains(at) <==> self@.is_target(at)
    }
}

/// Whether the cell of `map` at `next_coord` is `object_to_compare`. A
/// position outside the grid counts as a wall.
pub fn is_object(next_coord: &Coord, object_to_compare: Cell, map: &Vec<Vec<Cell>>) -> (same: bool)
    ensures
        same == (cell_or_wall(grid_view(*map), *next_coord) == object_to_compare),
{
    if next_coord.row < map.len() && next_coord.column < map[next_coord.row].len() {
        map[next_coord.row][next_coord.column] == object_to_compare
    } else {
        object_to_compare == Cell::Wall
    }
}

/// The grid after `object` was put on each of the positions that lie on it.
pub open spec fn stamped(grid: Seq<Seq<Cell>>, coords: Seq<Coord>, object: Cell) -> Seq<Seq<Cell>> {
    Seq::new(
        grid.len(),
        |r: int|
            Seq::new(
                grid[r].len(),
                |c: int|
                    if coords.contains(Coord { row: r as usize, column: c as usize }) {
                        object
                    } else {
                        grid[r][c]
                    },
            ),
    )
}

/// Puts `object` on each of the positions `coords` of the grid. Positions
/// outside the grid are passed over; the shape of the grid stays.
pub fn initialize_coords(sokoban: &mut Vec<Vec<Cell>>, coords: &Vec<Coord>, object: Cell)
    ensures
        grid_view(*final(sokoban)) == stamped(grid_view(*old(sokoban)), coords@, object),
{
    let mut i: usize = 0;
    assert(grid_view(*sokoban) =~~= stamped(grid_view(*sokoban), coords@.take(0), object));
    while i < coords.len()
        invariant
            i <= coords.len(),
            grid_view(*sokoban) == stamped(grid_view(*old(sokoban)), coords@.take(i as int), object),
        decreases coords.len() - i,
    {
        let at = coords[i];
        let ghost earlier = grid_view(*sokoban);
        if at.row < sokoban.len() && at.column < sokoban[at.row].len() {
            sokoban[at.row][at.column] = object;
        }
        proof {
            broadcast use vstd::seq_lib::lemma_seq_contains_after_push;

            let more = coords@.take(i + 1);
            assert(more == coords@.take(i as int).push(at));
            let now = grid_view(*sokoban);
            let goal = stamped(grid_view(*old(sokoban)), more, object);
            assert(now.len() == earlier.len());
            assert forall|r: int| 0 <= r < now.len() implies #[trigger] now[r] =~= goal[r] by {
                assert(now[r].len() == earlier[r].len());
                assert forall|c: int| 0 <= c < now[r].len() implies now[r][c] == goal[r][c] by {
                    if (Coord { row: r as usize, column: c as usize }) != at {
                        assert(now[r][c] == earlier[r][c]);
                    }
                }
            }
            assert(now =~= goal);
        }
        i += 1;
    }
    assert(coords@.take(coords@.len() as int) == coords@);
}

/// The first fault of a board that would be made of these parts, looked for
/// in the order of the variants of [`ConfigFault`]; `None` where they make a
/// valid board.
pub open spec fn config_fault(
    terrain: Seq<Seq<Cell>>,
    player: Option<Coord>,
    boxes: Seq<Coord>,
) -> Option<ConfigFault> {
    let board = Board { terrain, player: player.unwrap_or(Coord { row: 0, column: 0 }), boxes };
    if !board.rectangular() {
        Some(ConfigFault::NotRectangular)
    } else if player is None {
        Some(ConfigFault::MissingPlayer)
    } else if !board.in_bounds(board.player) || exists|i: int|
        0 <= i < boxes.len() && !board.in_bounds(#[trigger] boxes[i]) {
        Some(ConfigFault::OutOfBounds)
    } else if board.cell(board.player) == Cell::Wall {
        Some(ConfigFault::PlayerOnWall)
    } else if exists|i: int| 0 <= i < boxes.len() && board.cell(#[trigger] boxes[i]) == Cell::Wall {
        Some(ConfigFault::BoxOnWall)
    } else if !boxes.no_duplicates() {
        Some(ConfigFault::BoxesOverlap)
    } else if boxes.contains(board.player) {
        Some(ConfigFault::PlayerOnBox)
    } else {
        None
    }
}

/// The board made of these parts, or the first fault for which there is
/// none.
pub open spec fn checked_board(
    terrain: Seq<Seq<Cell>>,
    player: Option<Coord>,
    boxes: Seq<Coord>,
) -> Result<Board, SokobanError> {
    match config_fault(terrain, player, boxes) {
        Some(fault) => Err(SokobanError::ConfigError(fault)),
        None => Ok(Board { terrain, player: player->0, boxes }),
    }
}

/// Whether all rows of `map` are `columns` long.
fn rows_have_length(map: &Vec<Vec<Cell>>, columns: usize) -> (all: bool)
    ensures
        all == forall|r: int| 0 <= r < map@.len() ==> (#[trigger] map@[r])@.len() == columns,
{
    let mut r: usize = 0;
    while r < map.len()
        invariant
            r <= map.len(),
            forall|k: int| 0 <= k < r ==> (#[trigger] map@[k])@.len() == columns,
        decreases map.len() - r,
    {
        if map[r].len() != columns {
            return false;
        }
        r += 1;
    }
    true
}

/// Whether every position lies on a grid of `rows` by `columns` cells.
fn all_on_grid(coords: &Vec<Coord>, rows: usize, columns: usize) -> (all: bool)
    ensures
        all == forall|i: int|
            0 <= i < coords@.len() ==> (#[trigger] coords@[i]).row < rows && coords@[i].column
                < columns,
{
    let mut i: usize = 0;
    while i < coords.len()
        invariant
            i <= coords.len(),
            forall|k: int|
                0 <= k < i ==> (#[trigger] coords@[k]).row < rows && coords@[k].column < columns,
        decreases coords.len() - i,
    {
        if coords[i].row >= rows || coords[i].column >= columns {
            return false;
        }
        i += 1;
    }
    true
}

/// Whether one of the positions is a wall cell of `map`.
fn any_on_wall(coords: &Vec<Coord>, map: &Vec<Vec<Cell>>) -> (any: bool)
    ensures
        any == exists|i: int|
            0 <= i < coords@.len() && cell_or_wall(grid_view(*map), #[trigger] coords@[i])
                == Cell::Wall,
{
    let mut i: usize = 0;
    while i < coords.len()
        invariant
            i <= coords.len(),
            forall|k: int|
                0 <= k < i ==> cell_or_wall(grid_view(*map), #[trigger] coords@[k]) != Cell::Wall,
        decreases coords.len() - i,
    {
        if is_object(&coords[i], Cell::Wall, map) {
            return true;
        }
        i += 1;
    }
    false
}

/// Whether `at` is one of the positions.
pub(crate) fn is_listed(at: &Coord, coords: &Vec<Coord>) -> (found: bool)
    ensures
        found == coords@.contains(*at),
{
    let mut i: usize = 0;
    while i < coords.len()
        invariant
            i <= coords.len(),
            forall|k: int| 0 <= k < i ==> coords@[k] != *at,
        decreases coords.len() - i,
    {
        if coords[i] == *at {
            return true;
        }
        i += 1;
    }
    false
}

/// Whether no position occurs twice.
fn all_distinct(coords: &Vec<Coord>) -> (distinct: bool)
    ensures
        distinct == coords@.no_duplicates(),
{
    let mut i: usize = 0;
    while i < coords.len()
        invariant
            i <= coords.len(),
            forall|a: int, b: int| 0 <= a < i && a < b < coords@.len() ==> coords@[a] != coords@[b],
        decreases coords.len() - i,
    {
        let mut j: usize = i + 1;
        while j < coords.len()
            invariant
                i < j <= coords.len(),
                forall|b: int| i < b < j ==> coords@[i as int] != coords@[b],
            decreases coords.len() - j,
        {
            if coords[i] == coords[j] {
                return false;
            }
            j += 1;
        }
        i += 1;
    }
    true
}

/// The target cells of a rectangular grid, in row-major order.
fn find_targets(map: &Vec<Vec<Cell>>, columns: usize) -> (targets: Vec<Coord>)
    requires
        forall|r: int| 0 <= r < map@.len() ==> (#[trigger] map@[r])@.len() == columns,
    ensures
        row_major(targets@),
        forall|at: Coord|
            targets@.contains(at) <==> at.row < map@.len() && at.column < columns && cell_or_wall(
                grid_view(*map),
                at,
            ) == Cell::Target,
{
    let mut targets: Vec<Coord> = Vec::new();
    let mut r: usize = 0;
    while r < map.len()
        invariant
            r <= map.len(),
            forall|k: int| 0 <= k < map@.len() ==> (#[trigger] map@[k])@.len() == columns,
            row_major(targets@),
            forall|at: Coord|
                targets@.contains(at) <==> at.row < r && at.column < columns && cell_or_wall(
                    grid_view(*map),
                    at,
                ) == Cell::Target,
        decreases map.len() - r,
    {
        let mut c: usize = 0;
        while c < columns
            invariant
                r < map.len(),
                c <= columns,
                forall|k: int| 0 <= k < map@.len() ==> (#[trigger] map@[k])@.len() == columns,
                row_major(targets@),
                forall|at: Coord|
                    targets@.contains(at) <==> (at.row < r || (at.row == r && at.column < c))
                        && at.column < columns && cell_or_wall(grid_view(*map), at)
                        == Cell::Target,
            decreases columns - c,
        {
            if map[r][c] == Cell::Target {
                let here = Coord { row: r, column: c };
                let ghost earlier = targets@;
                targets.push(here);
                proof {
                    broadcast use vstd::seq_lib::lemma_seq_contains_after_push;

                    assert forall|i: int, j: int| 0 <= i < j < targets@.len() implies before(
                        #[trigger] targets@[i],
                        #[trigger] targets@[j],
                    ) by {
                        if j == earlier.len() {
                            assert(earlier.contains(earlier[i]));
                        } else {
                            assert(before(earlier[i], earlier[j]));
                        }
                    }
                }
            }
            c += 1;
        }
        r += 1;
    }
    targets
}

impl Sokoban {
    /// Makes a board of a terrain grid, the player's position and the
    /// positions of the boxes.
    ///
    /// The parts are accepted exactly where they make a valid board; the
    /// board then holds them unchanged. Otherwise the error names the first
    /// fault, in the order of the variants of [`ConfigFault`].
    pub fn from_parts(map: Vec<Vec<Cell>>, user_coords: Option<Coord>, boxes_coords: Vec<Coord>) -> (made:
        Result<Sokoban, SokobanError>)
        ensures
            match made {
                Ok(sokoban) => sokoban.wf() && checked_board(
                    grid_view(map),
                    user_coords,
                    boxes_coords@,
                ) == Ok::<Board, SokobanError>(sokoban@),
                Err(error) => checked_board(grid_view(map), user_coords, boxes_coords@) == Err::<
                    Board,
                    SokobanError,
                >(error),
            },
    {
        let rows: usize = map.len();
        let columns: usize = if rows > 0 {
            map[0].len()
        } else {
            0
        };
        if !rows_have_length(&map, columns) {
            proof {
                let r = choose|r: int| 0 <= r < map@.len() && (#[trigger] map@[r])@.len() != columns;
                assert(grid_view(map)[r].len() != columns);
            }
            return Err(SokobanError::ConfigError(ConfigFault::NotRectangular));
        }
        let player = match user_coords {
            Some(player) => player,
            None => {
                return Err(SokobanError::ConfigError(ConfigFault::MissingPlayer));
            },
        };
        if player.row >= rows || player.column >= columns || !all_on_grid(&boxes_coords, rows, columns) {
            return Err(SokobanError::ConfigError(ConfigFault::OutOfBounds));
        }
        if is_object(&player, Cell::Wall, &map) {
            return Err(SokobanError::ConfigError(ConfigFault::PlayerOnWall));
        }
        if any_on_wall(&boxes_coords, &map) {
            return Err(SokobanError::ConfigError(ConfigFault::BoxOnWall));
        }
        if !all_distinct(&boxes_coords) {
            return Err(SokobanError::ConfigError(ConfigFault::BoxesOverlap));
        }
        if is_listed(&player, &boxes_coords) {
            return Err(SokobanError::ConfigError(ConfigFault::PlayerOnBox));
        }
        let target_coords = find_targets(&map, columns);
        Ok(Sokoban { map, user_coords: player, boxes_coords, target_coords, rows, columns })
    }
}

impl Sokoban {
    /// A well-formed board is a valid one.
    pub proof fn lemma_wf_is_valid(&self)
        requires
            self.wf(),
        ensures
            self@.valid(),
    {
    }

    /// The number of rows of the grid.
    pub fn rows(&self) -> (rows: usize)
        requires
            self.wf(),
        ensures
            rows == self@.rows(),
    {
        self.rows
    }

    /// The number of columns of the grid.
    pub fn columns(&self) -> (columns: usize)
        requires
            self.wf(),
        ensures
            columns == self@.columns(),
    {
        self.columns
    }

    /// The terrain, row by row.
    pub fn terrain(&self) -> (map: &Vec<Vec<Cell>>)
        ensures
            grid_view(*map) == self@.terrain,
    {
        &self.map
    }

    /// Where the player stands.
    pub fn user_coords(&self) -> (player: Coord)
        ensures
            player == self@.player,
    {
        self.user_coords
    }

    /// Where the boxes stand. A box keeps its index for the whole game.
    pub fn boxes_coords(&self) -> (boxes: &Vec<Coord>)
        ensures
            boxes@ == self@.boxes,
    {
        &self.boxes_coords
    }

    /// The boxes that sit on a target, in the order of the boxes.
    pub fn boxes_on_target_coords(&self) -> (covering: Vec<Coord>)
        requires
            self.wf(),
        ensures
            covering@ == self@.boxes_on_target(),
    {
        let mut covering: Vec<Coord> = Vec::new();
        let mut i: usize = 0;
        while i < self.boxes_coords.len()
            invariant
                i <= self.boxes_coords.len(),
                self.wf(),
                covering@ == self@.boxes.take(i as int).filter(|at: Coord| self@.is_target(at)),
            decreases self.boxes_coords.len() - i,
        {
            let one = self.boxes_coords[i];
            proof {
                let seen = self@.boxes.take(i as int);
                assert(self@.boxes.take(i + 1) == seen.push(one));
                Seq::lemma_filter_push(seen, one, |at: Coord| self@.is_target(at));
            }
            if is_object(&one, Cell::Target, &self.map) {
                covering.push(one);
            }
            i += 1;
        }
        assert(self@.boxes.take(self@.boxes.len() as int) == self@.boxes);
        covering
    }

    /// The target cells, in row-major order.
    pub fn target_coords(&self) -> (targets: &Vec<Coord>)
        requires
            self.wf(),
        ensures
            row_major(targets@),
            forall|at: Coord| targets@.contains(at) <==> self@.is_target(at),
    {
        &self.target_coords
    }
}

} // verus!
