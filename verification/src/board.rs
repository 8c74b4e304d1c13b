use vstd::prelude::*;
use rayon::iter::{IntoParallelIterator, IntoParallelRefIterator, IntoParallelRefMutIterator,
    ParallelIterator};
use crate::player::{Player, PlayerType, is_blank};

verus! {

pub const ROWS: u8 = 6;
pub const COLS: u8 = 7;

/// The marker that the drawn-board fixture puts at a cell: one of four
/// distinct symbols chosen by the parities of the row and the column, so
/// that no two cells adjacent along any scan axis share a marker.
pub open spec fn drawn_pattern_marker(r: int, c: int) -> char {
    if r % 2 == 0 && c % 2 == 0 {
        'x'
    } else if r % 2 == 0 {
        'o'
    } else if c % 2 == 0 {
        'v'
    } else {
        '@'
    }
}

/// Reads whether the cell at (row, col) of a row-major grid is occupied.
fn cell_occupied_at(data: &Vec<Player>, row: usize, col: u8) -> (r: bool)
    requires
        data@.len() == ROWS as int * COLS as int,
        row < ROWS as usize,
        col < COLS,
    ensures
        r == !is_blank(data@[row as int * COLS as int + col as int]),
{
    data[row * COLS as usize + col as usize].occupied()
}

/// Resets one cell to the blank player.
fn reset_cell(p: &mut Player)
    ensures
        is_blank(*final(p)),
{
    p.id = 0;
    p.name = "";
    p.marker = ' ';
    p.player_type = PlayerType::COMPUTER;
}

/// Relies on rayon's ParallelIterator::all over the cells of the top row,
/// which in the row-major layout are the first COLS elements: the result is
/// true iff the closure returns true of every one of them.
#[verifier::external_body]
fn par_top_row_occupied(board: &Board) -> (r: bool)
    requires
        board.wf(),
    ensures
        r == board.board_full(),
{
    board.data[0..COLS as usize].par_iter().all(|p| p.occupied())
}

/// Relies on rayon's IntoParallelIterator for ranges and ParallelIterator::all:
/// the result is true iff the closure returns true of every row index.
#[verifier::external_body]
fn par_column_occupied(board: &Board, col: u8) -> (r: bool)
    requires
        board.wf(),
        col < COLS,
    ensures
        r == board.column_full(col as int),
{
    (0..ROWS as usize).into_par_iter().all(|row| cell_occupied_at(&board.data, row, col))
}

/// Relies on rayon's IntoParallelRefMutIterator::par_iter_mut and
/// ParallelIterator::for_each: the closure runs once on every element.
#[verifier::external_body]
fn par_clear_cells(data: &mut Vec<Player>)
    ensures
        final(data)@.len() == old(data)@.len(),
        forall|i: int| 0 <= i < final(data)@.len() ==> is_blank(#[trigger] final(data)@[i]),
{
    data.par_iter_mut().for_each(|p| reset_cell(p));
}

/// The playing grid: a ROWS x COLS matrix of cells stored row-major,
/// row 0 at the top, row ROWS-1 at the bottom. A blank player value
/// marks an unoccupied cell.
#[derive(Debug)]
pub struct Board {
    pub data: Vec<Player>,
}

impl Board {
    /// The grid always holds exactly ROWS * COLS cells.
    pub open spec fn wf(self) -> bool {
        self.data@.len() == ROWS as int * COLS as int
    }

    /// The cell at a row and column, as the specifications see it.
    pub open spec fn cell(self, row: int, col: int) -> Player {
        self.data@[row * COLS as int + col]
    }

    /// Every row of the column is occupied.
    pub open spec fn column_full(self, col: int) -> bool {
        forall|r: int| 0 <= r < ROWS as int ==> !is_blank(#[trigger] self.cell(r, col))
    }

    /// The whole board is full as soon as its top row is: gravity never
    /// leaves an empty cell below an occupied one.
    pub open spec fn board_full(self) -> bool {
        forall|c: int| 0 <= c < COLS as int ==> !is_blank(#[trigger] self.cell(0, c))
    }

    /// A move is legal iff the column exists, has room, and the board
    /// as a whole is not already decided by being full.
    pub open spec fn move_allowed(self, col: int) -> bool {
        0 <= col < COLS as int && !self.column_full(col) && !self.board_full()
    }

    /// No cell of the board is occupied.
    pub open spec fn board_empty(self) -> bool {
        forall|r: int, c: int|
            0 <= r < ROWS as int && 0 <= c < COLS as int ==> is_blank(#[trigger] self.cell(r, c))
    }

    pub fn new() -> (b: Board)
        ensures
            b.wf(),
            b.board_empty(),
    {
        let mut data: Vec<Player> = Vec::new();
        let mut i: u8 = 0;
        while i < ROWS * COLS
            invariant
                i <= ROWS * COLS,
                data@.len() == i as int,
                forall|k: int| 0 <= k < i as int ==> is_blank(#[trigger] data@[k]),
            decreases ROWS * COLS - i,
        {
            data.push(Player::default());
            i += 1;
        }
        let b = Board { data };
        proof {
            assert forall|r: int, c: int|
                0 <= r < ROWS as int && 0 <= c < COLS as int implies is_blank(
                #[trigger] b.cell(r, c),
            ) by {
                assert(0 <= r * COLS as int + c < ROWS as int * COLS as int) by (nonlinear_arith)
                    requires 0 <= r < 6 && 0 <= c < 7;
            }
        }
        b
    }

    pub fn get_rows(&self) -> (r: u8)
        ensures
            r == ROWS,
    {
        ROWS
    }

    pub fn get_cols(&self) -> (r: u8)
        ensures
            r == COLS,
    {
        COLS
    }

    /// The row a piece dropped into the column comes to rest in: the lowest
    /// row whose cell is empty, every row below it being occupied.
    pub open spec fn lands_at(self, col: int, row: int) -> bool {
        &&& 0 <= row < ROWS as int
        &&& is_blank(self.cell(row, col))
        &&& forall|k: int| row < k < ROWS as int ==> !is_blank(#[trigger] self.cell(k, col))
    }

    /// The board is full iff its top row has no empty cell.
    pub fn is_full(&self) -> (r: bool)
        requires
            self.wf(),
        ensures
            r == self.board_full(),
    {
        par_top_row_occupied(self)
    }

    /// A column is full iff every one of its ROWS cells is occupied.
    pub fn is_column_full(&self, col: u8) -> (r: bool)
        requires
            self.wf(),
            col < COLS,
        ensures
            r == self.column_full(col as int),
    {
        par_column_occupied(self, col)
    }

    /// A move is legal iff the column index is in range, that column has
    /// room, and the board as a whole is not already full.
    pub fn is_valid_move(&self, col: u8) -> (r: bool)
        requires
            self.wf(),
        ensures
            r == self.move_allowed(col as int),
    {
        col < COLS && !self.is_column_full(col) && !self.is_full()
    }

    /// Locate where a piece dropped into the column would land, scanning the
    /// column from the bottom row upward. Never mutates the board: placement
    /// is two-phase, locate then write. Returns nothing for an illegal move.
    pub fn apply_gravity(&mut self, col: u8) -> (r: Option<u8>)
        requires
            old(self).wf(),
        ensures
            *final(self) == *old(self),
            match r {
                Option::None => !old(self).move_allowed(col as int),
                Option::Some(row) => old(self).move_allowed(col as int) && old(self).lands_at(
                    col as int,
                    row as int,
                ),
            },
    {
        if !self.is_valid_move(col) {
            return None;
        }
        let mut row: u8 = ROWS;
        while row > 0
            invariant
                *self == *old(self),
                self.wf(),
                row <= ROWS,
                col < COLS,
                self.move_allowed(col as int),
                forall|k: int|
                    row as int <= k < ROWS as int ==> !is_blank(#[trigger] self.cell(k, col as int)),
            decreases row,
        {
            row -= 1;
            if !self.get_cell(row, col).occupied() {
                return Some(row);
            }
        }
        proof {
            assert(self.column_full(col as int));
        }
        None
    }

    /// Reset every cell to empty.
    pub fn clear(&mut self)
        requires
            old(self).wf(),
        ensures
            final(self).wf(),
            final(self).board_empty(),
    {
        par_clear_cells(&mut self.data);
        proof {
            assert forall|r: int, c: int|
                0 <= r < ROWS as int && 0 <= c < COLS as int implies is_blank(
                #[trigger] self.cell(r, c),
            ) by {
                assert(0 <= r * COLS as int + c < ROWS as int * COLS as int) by (nonlinear_arith)
                    requires 0 <= r < 6 && 0 <= c < 7;
            }
        }
    }

    /// The columns a move may legally target, in ascending order; nothing
    /// when no legal move is left.
    pub fn get_available_cols(&self) -> (r: Option<Vec<u8>>)
        requires
            self.wf(),
        ensures
            match r {
                Option::Some(v) => v@.len() > 0 && (forall|i: int|
                    0 <= i < v@.len() ==> self.move_allowed(#[trigger] v@[i] as int)) && (forall|
                    c: int,
                |
                    0 <= c < COLS as int && self.move_allowed(c) ==> v@.contains(c as u8)),
                Option::None => forall|c: int| 0 <= c < COLS as int ==> !self.move_allowed(c),
            },
    {
        let mut available_cols: Vec<u8> = Vec::new();
        let mut i: u8 = 0;
        while i < COLS
            invariant
                self.wf(),
                i <= COLS,
                forall|k: int|
                    0 <= k < available_cols@.len() ==> self.move_allowed(
                        #[trigger] available_cols@[k] as int,
                    ),
                forall|c: int|
                    0 <= c < i as int && self.move_allowed(c) ==> available_cols@.contains(c as u8),
            decreases COLS - i,
        {
            if self.is_valid_move(i) {
                let ghost prev = available_cols@;
                available_cols.push(i);
                proof {
                    assert(available_cols@[prev.len() as int] == i);
                    assert forall|c: int|
                        0 <= c < i as int + 1 && self.move_allowed(c) implies available_cols@
                        .contains(c as u8) by {
                        if c < i as int {
                            let j = choose|j: int| 0 <= j < prev.len() && prev[j] == c as u8;
                            assert(available_cols@[j] == c as u8);
                        } else {
                            assert(available_cols@[prev.len() as int] == c as u8);
                        }
                    }
                }
            }
            i += 1;
        }
        if available_cols.len() == 0 {
            return None;
        }
        proof {
            assert(self.move_allowed(available_cols@[0] as int));
        }
        Some(available_cols)
    }

    /// Fill the whole board with four distinct markers in a checkerboard-like
    /// tiling that contains no run of four anywhere: a deterministic fixture
    /// for drawn-game scenarios.
    pub fn generate_full_board() -> (b: Board)
        ensures
            b.wf(),
            forall|r: int, c: int|
                0 <= r < ROWS as int && 0 <= c < COLS as int ==> (#[trigger] b.cell(r, c)).marker
                    == drawn_pattern_marker(r, c) && b.cell(r, c).id == 0 && b.cell(
                    r,
                    c,
                ).player_type == PlayerType::COMPUTER,
    {
        let mut b = Board::new();
        let mut p1 = Player::default();
        let mut p2 = Player::default();
        let mut p3 = Player::default();
        let mut p4 = Player::default();
        p1.marker = 'x';
        p2.marker = 'o';
        p3.marker = 'v';
        p4.marker = '@';

        let mut r: u8 = 0;
        while r < ROWS
            invariant
                b.wf(),
                r <= ROWS,
                p1 == (Player { id: 0, name: p1.name, player_type: PlayerType::COMPUTER, marker: 'x' }),
                p2 == (Player { id: 0, name: p2.name, player_type: PlayerType::COMPUTER, marker: 'o' }),
                p3 == (Player { id: 0, name: p3.name, player_type: PlayerType::COMPUTER, marker: 'v' }),
                p4 == (Player { id: 0, name: p4.name, player_type: PlayerType::COMPUTER, marker: '@' }),
                forall|r0: int, c0: int|
                    0 <= r0 < r as int && 0 <= c0 < COLS as int ==> (#[trigger] b.cell(
                        r0,
                        c0,
                    )).marker == drawn_pattern_marker(r0, c0) && b.cell(r0, c0).id == 0 && b.cell(
                        r0,
                        c0,
                    ).player_type == PlayerType::COMPUTER,
            decreases ROWS - r,
        {
            let mut c: u8 = 0;
            while c < COLS
                invariant
                    b.wf(),
                    r < ROWS,
                    c <= COLS,
                    p1 == (Player { id: 0, name: p1.name, player_type: PlayerType::COMPUTER, marker: 'x' }),
                    p2 == (Player { id: 0, name: p2.name, player_type: PlayerType::COMPUTER, marker: 'o' }),
                    p3 == (Player { id: 0, name: p3.name, player_type: PlayerType::COMPUTER, marker: 'v' }),
                    p4 == (Player { id: 0, name: p4.name, player_type: PlayerType::COMPUTER, marker: '@' }),
                    forall|r0: int, c0: int|
                        0 <= r0 < ROWS as int && 0 <= c0 < COLS as int && (r0 < r as int || (r0
                            == r as int && c0 < c as int)) ==> (#[trigger] b.cell(r0, c0)).marker
                            == drawn_pattern_marker(r0, c0) && b.cell(r0, c0).id == 0 && b.cell(
                            r0,
                            c0,
                        ).player_type == PlayerType::COMPUTER,
                decreases COLS - c,
            {
                if r % 2 == 0 && c % 2 == 0 {
                    b.set_cell(r, c, p1);
                } else if r % 2 == 0 {
                    b.set_cell(r, c, p2);
                } else if c % 2 == 0 {
                    b.set_cell(r, c, p3);
                } else {
                    b.set_cell(r, c, p4);
                }
                c += 1;
            }
            r += 1;
        }
        b
    }

    /// A board whose bottom row holds the given player in the first
    /// nr_connected_components columns and is otherwise empty.
    pub fn generate_horizontal_win(player: &Player, nr_connected_components: u8) -> (b: Board)
        requires
            nr_connected_components <= COLS,
        ensures
            b.wf(),
            forall|i: int|
                0 <= i < nr_connected_components as int ==> #[trigger] b.cell(ROWS as int - 1, i)
                    == *player,
            forall|r: int, c: int|
                0 <= r < ROWS as int && 0 <= c < COLS as int && !(r == ROWS as int - 1 && c
                    < nr_connected_components as int) ==> is_blank(#[trigger] b.cell(r, c)),
    {
        let mut b = Board::new();
        let mut i: u8 = 0;
        while i < nr_connected_components
            invariant
                b.wf(),
                i <= nr_connected_components <= COLS,
                forall|k: int|
                    0 <= k < i as int ==> #[trigger] b.cell(ROWS as int - 1, k) == *player,
                forall|r: int, c: int|
                    0 <= r < ROWS as int && 0 <= c < COLS as int && !(r == ROWS as int - 1 && c
                        < i as int) ==> is_blank(#[trigger] b.cell(r, c)),
            decreases nr_connected_components - i,
        {
            b.set_cell(ROWS - 1, i, *player);
            i += 1;
        }
        b
    }

    /// A board whose last column holds the given player in the first
    /// nr_connected_components rows from the top and is otherwise empty.
    pub fn generate_vertical_win(player: &Player, nr_connected_components: u8) -> (b: Board)
        requires
            nr_connected_components <= ROWS,
        ensures
            b.wf(),
            forall|i: int|
                0 <= i < nr_connected_components as int ==> #[trigger] b.cell(i, COLS as int - 1)
                    == *player,
            forall|r: int, c: int|
                0 <= r < ROWS as int && 0 <= c < COLS as int && !(c == COLS as int - 1 && r
                    < nr_connected_components as int) ==> is_blank(#[trigger] b.cell(r, c)),
    {
        let mut b = Board::new();
        let mut i: u8 = 0;
        while i < nr_connected_components
            invariant
                b.wf(),
                i <= nr_connected_components <= ROWS,
                forall|k: int|
                    0 <= k < i as int ==> #[trigger] b.cell(k, COLS as int - 1) == *player,
                forall|r: int, c: int|
                    0 <= r < ROWS as int && 0 <= c < COLS as int && !(c == COLS as int - 1 && r
                        < i as int) ==> is_blank(#[trigger] b.cell(r, c)),
            decreases nr_connected_components - i,
        {
            b.set_cell(i, COLS - 1, *player);
            i += 1;
        }
        b
    }

    /// A board holding the given player along the down-right diagonal from
    /// the top-left corner, otherwise empty.
    pub fn generate_diagonal_south_east_win(player: &Player, nr_connected_components: u8) -> (b:
        Board)
        requires
            nr_connected_components <= ROWS,
        ensures
            b.wf(),
            forall|i: int|
                0 <= i < nr_connected_components as int ==> #[trigger] b.cell(i, i) == *player,
            forall|r: int, c: int|
                0 <= r < ROWS as int && 0 <= c < COLS as int && !(r == c && r
                    < nr_connected_components as int) ==> is_blank(#[trigger] b.cell(r, c)),
    {
        let mut b = Board::new();
        let mut i: u8 = 0;
        while i < nr_connected_components
            invariant
                b.wf(),
                i <= nr_connected_components <= ROWS,
                forall|k: int| 0 <= k < i as int ==> #[trigger] b.cell(k, k) == *player,
                forall|r: int, c: int|
                    0 <= r < ROWS as int && 0 <= c < COLS as int && !(r == c && r < i as int)
                        ==> is_blank(#[trigger] b.cell(r, c)),
            decreases nr_connected_components - i,
        {
            b.set_cell(i, i, *player);
            i += 1;
        }
        b
    }

    /// A board holding the given player along the up-right diagonal from the
    /// bottom-left corner, otherwise empty.
    pub fn generate_diagonal_north_east_win(player: &Player, nr_connected_components: u8) -> (b:
        Board)
        requires
            nr_connected_components <= ROWS,
        ensures
            b.wf(),
            forall|i: int|
                0 <= i < nr_connected_components as int ==> #[trigger] b.cell(ROWS as int - 1 - i, i)
                    == *player,
            forall|r: int, c: int|
                0 <= r < ROWS as int && 0 <= c < COLS as int && !(r + c == ROWS as int - 1 && c
                    < nr_connected_components as int) ==> is_blank(#[trigger] b.cell(r, c)),
    {
        let mut b = Board::new();
        let mut i: u8 = 0;
        while i < nr_connected_components
            invariant
                b.wf(),
                i <= nr_connected_components <= ROWS,
                forall|k: int|
                    0 <= k < i as int ==> #[trigger] b.cell(ROWS as int - 1 - k, k) == *player,
                forall|r: int, c: int|
                    0 <= r < ROWS as int && 0 <= c < COLS as int && !(r + c == ROWS as int - 1 && c
                        < i as int) ==> is_blank(#[trigger] b.cell(r, c)),
            decreases nr_connected_components - i,
        {
            b.set_cell(ROWS - 1 - i, i, *player);
            i += 1;
        }
        b
    }

    /// Gravity law: on a board whose column is entirely empty, a dropped
    /// piece lands in the bottom row.
    pub proof fn lemma_gravity_lands_at_bottom(b: Board, col: int)
        requires
            b.wf(),
            0 <= col < COLS as int,
            forall|r: int| 0 <= r < ROWS as int ==> is_blank(#[trigger] b.cell(r, col)),
        ensures
            b.lands_at(col, ROWS as int - 1),
    {
    }

    /// Gravity law: once the bottom cell of a column is taken and the rest of
    /// the column is empty, the next piece lands immediately above it.
    pub proof fn lemma_gravity_stacks(b: Board, col: int)
        requires
            b.wf(),
            0 <= col < COLS as int,
            !is_blank(b.cell(ROWS as int - 1, col)),
            forall|r: int| 0 <= r < ROWS as int - 1 ==> is_blank(#[trigger] b.cell(r, col)),
        ensures
            b.lands_at(col, ROWS as int - 2),
    {
    }

    /// The landing row of a column is unique, so what apply_gravity returns
    /// is a function of the board and the column alone.
    pub proof fn lemma_lands_at_unique(b: Board, col: int, r1: int, r2: int)
        requires
            b.lands_at(col, r1),
            b.lands_at(col, r2),
        ensures
            r1 == r2,
    {
    }

    /// Read one cell.
    pub fn get_cell(&self, row: u8, col: u8) -> (p: Player)
        requires
            self.wf(),
            row < ROWS,
            col < COLS,
        ensures
            p == self.cell(row as int, col as int),
    {
        self.data[row as usize * COLS as usize + col as usize]
    }

    /// Write one cell, leaving every other cell as it was.
    pub fn set_cell(&mut self, row: u8, col: u8, player: Player)
        requires
            old(self).wf(),
            row < ROWS,
            col < COLS,
        ensures
            final(self).wf(),
            final(self).cell(row as int, col as int) == player,
            forall|r: int, c: int|
                0 <= r < ROWS as int && 0 <= c < COLS as int && !(r == row as int && c
                    == col as int) ==> final(self).cell(r, c) == old(self).cell(r, c),
    {
        let idx: usize = row as usize * COLS as usize + col as usize;
        self.data[idx] = player;
        proof {
            assert forall|r: int, c: int|
                0 <= r < ROWS as int && 0 <= c < COLS as int && !(r == row as int && c
                    == col as int) implies final(self).cell(r, c) == old(self).cell(r, c) by {
                assert(r * COLS as int + c != row as int * COLS as int + col as int)
                    by (nonlinear_arith)
                    requires
                        0 <= r < 6,
                        0 <= c < 7,
                        0 <= row < 6,
                        0 <= col < 7,
                        !(r == row as int && c == col as int),
                ;
            }
        }
    }
}

} // verus!
