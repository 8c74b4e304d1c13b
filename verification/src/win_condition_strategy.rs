use vstd::prelude::*;
use crate::player::{Player, same_player, is_blank};
use crate::board::{Board, ROWS, COLS, drawn_pattern_marker};

verus! {

pub const CONNECTED_COMPONENTS_WIN_THRESHOLD: u8 = 4;

/// Four cells rightward from (r, c) all hold the player.
pub open spec fn h_window(b: Board, p: Player, r: int, c: int) -> bool {
    forall|k: int| 0 <= k < 4 ==> same_player(#[trigger] b.cell(r, c + k), p)
}

/// Four cells downward from (r, c) all hold the player.
pub open spec fn v_window(b: Board, p: Player, r: int, c: int) -> bool {
    forall|k: int| 0 <= k < 4 ==> same_player(#[trigger] b.cell(r + k, c), p)
}

/// Four cells down-rightward from (r, c) all hold the player.
pub open spec fn se_window(b: Board, p: Player, r: int, c: int) -> bool {
    forall|k: int| 0 <= k < 4 ==> same_player(#[trigger] b.cell(r + k, c + k), p)
}

/// Four cells up-rightward from (r, c) all hold the player.
pub open spec fn ne_window(b: Board, p: Player, r: int, c: int) -> bool {
    forall|k: int| 0 <= k < 4 ==> same_player(#[trigger] b.cell(r - k, c + k), p)
}

/// The player owns a run of four contiguous cells along some row.
pub open spec fn horizontal_win(b: Board, p: Player) -> bool {
    exists|r: int, c: int|
        0 <= r < ROWS as int && 0 <= c <= COLS as int - 4 && #[trigger] h_window(b, p, r, c)
}

/// The player owns a run of four contiguous cells along some column.
pub open spec fn vertical_win(b: Board, p: Player) -> bool {
    exists|r: int, c: int|
        0 <= r <= ROWS as int - 4 && 0 <= c < COLS as int && #[trigger] v_window(b, p, r, c)
}

/// The player owns a run of four contiguous cells along a down-right diagonal.
pub open spec fn diagonal_se_win(b: Board, p: Player) -> bool {
    exists|r: int, c: int|
        0 <= r <= ROWS as int - 4 && 0 <= c <= COLS as int - 4 && #[trigger] se_window(b, p, r, c)
}

/// The player owns a run of four contiguous cells along an up-right diagonal.
pub open spec fn diagonal_ne_win(b: Board, p: Player) -> bool {
    exists|r: int, c: int|
        3 <= r < ROWS as int && 0 <= c <= COLS as int - 4 && #[trigger] ne_window(b, p, r, c)
}

/// What each scan axis reports of a board and a player.
pub open spec fn strategy_wins(s: WinConditionStrategy, p: Player, b: Board) -> bool {
    match s {
        WinConditionStrategy::HorizontalWinStrategy => horizontal_win(b, p),
        WinConditionStrategy::VerticalWinStrategy => vertical_win(b, p),
        WinConditionStrategy::DiagonalWinStrategy => diagonal_ne_win(b, p) || diagonal_se_win(b, p),
    }
}

/// The scan axes checked for a winning run; the diagonal strategy covers
/// both diagonal directions.
#[derive(Debug)]
pub enum WinConditionStrategy {
    HorizontalWinStrategy,
    VerticalWinStrategy,
    DiagonalWinStrategy,
}

impl WinConditionStrategy {
    pub fn has_won(&self, player: &Player, board: &Board) -> (r: bool)
        requires
            board.wf(),
        ensures
            r == strategy_wins(*self, *player, *board),
    {
        match self {
            WinConditionStrategy::HorizontalWinStrategy => has_won_horizontally(player, board),
            WinConditionStrategy::VerticalWinStrategy => has_won_vertically(player, board),
            WinConditionStrategy::DiagonalWinStrategy => has_won_diagonally(player, board),
        }
    }
}

/// Sliding-window scan of every row: a counter of consecutive matches that
/// resets to zero on a mismatch, compared against the threshold after every
/// increment.
pub fn has_won_horizontally(player: &Player, board: &Board) -> (won: bool)
    requires
        board.wf(),
    ensures
        won == horizontal_win(*board, *player),
{
    let mut row: u8 = 0;
    while row < ROWS
        invariant
            board.wf(),
            row <= ROWS,
            forall|r: int, c: int|
                0 <= r < row as int && 0 <= c <= COLS as int - 4 ==> !#[trigger] h_window(
                    *board,
                    *player,
                    r,
                    c,
                ),
        decreases ROWS - row,
    {
        let mut current_count: u8 = 0;
        let mut col: u8 = 0;
        while col < COLS
            invariant
                board.wf(),
                row < ROWS,
                col <= COLS,
                current_count <= col,
                current_count < 4,
                forall|k: int|
                    col as int - current_count as int <= k < col as int ==> same_player(
                        #[trigger] board.cell(row as int, k),
                        *player,
                    ),
                current_count < col ==> !same_player(
                    board.cell(row as int, col as int - current_count as int - 1),
                    *player,
                ),
                forall|c: int|
                    0 <= c && c + 4 <= col as int ==> !#[trigger] h_window(
                        *board,
                        *player,
                        row as int,
                        c,
                    ),
                forall|r: int, c: int|
                    0 <= r < row as int && 0 <= c <= COLS as int - 4 ==> !#[trigger] h_window(
                        *board,
                        *player,
                        r,
                        c,
                    ),
            decreases COLS - col,
        {
            let ghost cnt0 = current_count as int;
            if board.get_cell(row, col).same_as(player) {
                current_count += 1;
                if current_count >= CONNECTED_COMPONENTS_WIN_THRESHOLD {
                    proof {
                        assert(h_window(*board, *player, row as int, col as int - 3));
                    }
                    return true;
                }
                proof {
                    if col as int - 3 >= 0 {
                        let start = col as int - 3;
                        let off = col as int - cnt0 - 1 - start;
                        assert(0 <= off < 4);
                        assert(!same_player(board.cell(row as int, start + off), *player));
                        assert(!h_window(*board, *player, row as int, start));
                    }
                }
            } else {
                current_count = 0;
                proof {
                    if col as int - 3 >= 0 {
                        let start = col as int - 3;
                        assert(!same_player(board.cell(row as int, start + 3), *player));
                        assert(!h_window(*board, *player, row as int, start));
                    }
                }
            }
            col += 1;
        }
        row += 1;
    }
    false
}

/// Sliding-window scan of every column, top to bottom, with the same
/// reset-on-mismatch counter.
pub fn has_won_vertically(player: &Player, board: &Board) -> (won: bool)
    requires
        board.wf(),
    ensures
        won == vertical_win(*board, *player),
{
    let mut col: u8 = 0;
    while col < COLS
        invariant
            board.wf(),
            col <= COLS,
            forall|r: int, c: int|
                0 <= r <= ROWS as int - 4 && 0 <= c < col as int ==> !#[trigger] v_window(
                    *board,
                    *player,
                    r,
                    c,
                ),
        decreases COLS - col,
    {
        let mut current_count: u8 = 0;
        let mut row: u8 = 0;
        while row < ROWS
            invariant
                board.wf(),
                col < COLS,
                row <= ROWS,
                current_count <= row,
                current_count < 4,
                forall|k: int|
                    row as int - current_count as int <= k < row as int ==> same_player(
                        #[trigger] board.cell(k, col as int),
                        *player,
                    ),
                current_count < row ==> !same_player(
                    board.cell(row as int - current_count as int - 1, col as int),
                    *player,
                ),
                forall|r: int|
                    0 <= r && r + 4 <= row as int ==> !#[trigger] v_window(
                        *board,
                        *player,
                        r,
                        col as int,
                    ),
                forall|r: int, c: int|
                    0 <= r <= ROWS as int - 4 && 0 <= c < col as int ==> !#[trigger] v_window(
                        *board,
                        *player,
                        r,
                        c,
                    ),
            decreases ROWS - row,
        {
            let ghost cnt0 = current_count as int;
            if board.get_cell(row, col).same_as(player) {
                current_count += 1;
                if current_count >= CONNECTED_COMPONENTS_WIN_THRESHOLD {
                    proof {
                        assert(v_window(*board, *player, row as int - 3, col as int));
                    }
                    return true;
                }
                proof {
                    if row as int - 3 >= 0 {
                        let start = row as int - 3;
                        let off = row as int - cnt0 - 1 - start;
                        assert(0 <= off < 4);
                        assert(!same_player(board.cell(start + off, col as int), *player));
                        assert(!v_window(*board, *player, start, col as int));
                    }
                }
            } else {
                current_count = 0;
                proof {
                    if row as int - 3 >= 0 {
                        let start = row as int - 3;
                        assert(!same_player(board.cell(start + 3, col as int), *player));
                        assert(!v_window(*board, *player, start, col as int));
                    }
                }
            }
            row += 1;
        }
        col += 1;
    }
    false
}

/// Walk four steps down-right from a candidate start, stopping at the first
/// mismatch.
fn se_window_matches(player: &Player, board: &Board, row: u8, col: u8) -> (r: bool)
    requires
        board.wf(),
        row + 4 <= ROWS,
        col + 4 <= COLS,
    ensures
        r == se_window(*board, *player, row as int, col as int),
{
    let mut k: u8 = 0;
    while k < 4
        invariant
            board.wf(),
            row + 4 <= ROWS,
            col + 4 <= COLS,
            k <= 4,
            forall|j: int|
                0 <= j < k as int ==> same_player(
                    #[trigger] board.cell(row as int + j, col as int + j),
                    *player,
                ),
        decreases 4 - k,
    {
        if !board.get_cell(row + k, col + k).same_as(player) {
            proof {
                assert(!same_player(
                    board.cell(row as int + k as int, col as int + k as int),
                    *player,
                ));
            }
            return false;
        }
        k += 1;
    }
    true
}

/// Walk four steps up-right from a candidate start, stopping at the first
/// mismatch.
fn ne_window_matches(player: &Player, board: &Board, row: u8, col: u8) -> (r: bool)
    requires
        board.wf(),
        3 <= row < ROWS,
        col + 4 <= COLS,
    ensures
        r == ne_window(*board, *player, row as int, col as int),
{
    let mut k: u8 = 0;
    while k < 4
        invariant
            board.wf(),
            3 <= row < ROWS,
            col + 4 <= COLS,
            k <= 4,
            forall|j: int|
                0 <= j < k as int ==> same_player(
                    #[trigger] board.cell(row as int - j, col as int + j),
                    *player,
                ),
        decreases 4 - k,
    {
        if !board.get_cell(row - k, col + k).same_as(player) {
            proof {
                assert(!same_player(
                    board.cell(row as int - k as int, col as int + k as int),
                    *player,
                ));
            }
            return false;
        }
        k += 1;
    }
    true
}

/// Down-right diagonal scan: every start whose four-step walk stays in
/// bounds, rows 0 to ROWS-4 and columns 0 to COLS-4.
pub fn has_won_south_east(player: &Player, board: &Board) -> (won: bool)
    requires
        board.wf(),
    ensures
        won == diagonal_se_win(*board, *player),
{
    let mut row: u8 = 0;
    while row <= ROWS - 4
        invariant
            board.wf(),
            row <= ROWS - 3,
            forall|r: int, c: int|
                0 <= r < row as int && 0 <= c <= COLS as int - 4 ==> !#[trigger] se_window(
                    *board,
                    *player,
                    r,
                    c,
                ),
        decreases ROWS - row,
    {
        let mut col: u8 = 0;
        while col <= COLS - 4
            invariant
                board.wf(),
                row <= ROWS - 4,
                col <= COLS - 3,
                forall|c: int|
                    0 <= c < col as int ==> !#[trigger] se_window(*board, *player, row as int, c),
                forall|r: int, c: int|
                    0 <= r < row as int && 0 <= c <= COLS as int - 4 ==> !#[trigger] se_window(
                        *board,
                        *player,
                        r,
                        c,
                    ),
            decreases COLS - col,
        {
            if se_window_matches(player, board, row, col) {
                return true;
            }
            col += 1;
        }
        row += 1;
    }
    false
}

/// Up-right diagonal scan: every start whose four-step walk stays in bounds,
/// rows 3 to ROWS-1 and columns 0 to COLS-4.
pub fn has_won_north_east(player: &Player, board: &Board) -> (won: bool)
    requires
        board.wf(),
    ensures
        won == diagonal_ne_win(*board, *player),
{
    let mut row: u8 = 3;
    while row < ROWS
        invariant
            board.wf(),
            3 <= row <= ROWS,
            forall|r: int, c: int|
                3 <= r < row as int && 0 <= c <= COLS as int - 4 ==> !#[trigger] ne_window(
                    *board,
                    *player,
                    r,
                    c,
                ),
        decreases ROWS - row,
    {
        let mut col: u8 = 0;
        while col <= COLS - 4
            invariant
                board.wf(),
                3 <= row < ROWS,
                col <= COLS - 3,
                forall|c: int|
                    0 <= c < col as int ==> !#[trigger] ne_window(*board, *player, row as int, c),
                forall|r: int, c: int|
                    3 <= r < row as int && 0 <= c <= COLS as int - 4 ==> !#[trigger] ne_window(
                        *board,
                        *player,
                        r,
                        c,
                    ),
            decreases COLS - col,
        {
            if ne_window_matches(player, board, row, col) {
                return true;
            }
            col += 1;
        }
        row += 1;
    }
    false
}

/// An empty grid holds no winning run for any actual participant, under any
/// scan strategy: every window's first cell is blank, and a blank cell never
/// matches an occupied player.
pub proof fn lemma_empty_board_no_win(b: Board, p: Player, s: WinConditionStrategy)
    requires
        b.wf(),
        b.board_empty(),
        !is_blank(p),
    ensures
        !strategy_wins(s, p, b),
{
    assert forall|r: int, c: int|
        0 <= r < ROWS as int && 0 <= c <= COLS as int - 4 implies !h_window(b, p, r, c) by {
        assert(is_blank(b.cell(r, c + 0)));
    }
    assert forall|r: int, c: int|
        0 <= r <= ROWS as int - 4 && 0 <= c < COLS as int implies !v_window(b, p, r, c) by {
        assert(is_blank(b.cell(r + 0, c)));
    }
    assert forall|r: int, c: int|
        0 <= r <= ROWS as int - 4 && 0 <= c <= COLS as int - 4 implies !se_window(b, p, r, c) by {
        assert(is_blank(b.cell(r + 0, c + 0)));
    }
    assert forall|r: int, c: int|
        3 <= r < ROWS as int && 0 <= c <= COLS as int - 4 implies !ne_window(b, p, r, c) by {
        assert(is_blank(b.cell(r - 0, c + 0)));
    }
}

/// A board tiled with the four-marker drawn pattern holds no winning run for
/// any player under any strategy: along every scan axis two cells adjacent in
/// the walk differ in a parity, so their markers differ, and a run of four
/// would need them equal.
pub proof fn lemma_drawn_pattern_no_win(b: Board, p: Player, s: WinConditionStrategy)
    requires
        b.wf(),
        forall|r: int, c: int|
            0 <= r < ROWS as int && 0 <= c < COLS as int ==> (#[trigger] b.cell(r, c)).marker
                == drawn_pattern_marker(r, c),
    ensures
        !strategy_wins(s, p, b),
{
    assert forall|r: int, c: int|
        0 <= r < ROWS as int && 0 <= c <= COLS as int - 4 implies !h_window(b, p, r, c) by {
        if h_window(b, p, r, c) {
            assert(same_player(b.cell(r, c + 0), p));
            assert(same_player(b.cell(r, c + 1), p));
            assert(drawn_pattern_marker(r, c) != drawn_pattern_marker(
                r,
                c + 1,
            ));
        }
    }
    assert forall|r: int, c: int|
        0 <= r <= ROWS as int - 4 && 0 <= c < COLS as int implies !v_window(b, p, r, c) by {
        if v_window(b, p, r, c) {
            assert(same_player(b.cell(r + 0, c), p));
            assert(same_player(b.cell(r + 1, c), p));
            assert(drawn_pattern_marker(r, c) != drawn_pattern_marker(
                r + 1,
                c,
            ));
        }
    }
    assert forall|r: int, c: int|
        0 <= r <= ROWS as int - 4 && 0 <= c <= COLS as int - 4 implies !se_window(b, p, r, c) by {
        if se_window(b, p, r, c) {
            assert(same_player(b.cell(r + 0, c + 0), p));
            assert(same_player(b.cell(r + 1, c + 1), p));
            assert(drawn_pattern_marker(r, c) != drawn_pattern_marker(
                r + 1,
                c + 1,
            ));
        }
    }
    assert forall|r: int, c: int|
        3 <= r < ROWS as int && 0 <= c <= COLS as int - 4 implies !ne_window(b, p, r, c) by {
        if ne_window(b, p, r, c) {
            assert(same_player(b.cell(r - 0, c + 0), p));
            assert(same_player(b.cell(r - 1, c + 1), p));
            assert(drawn_pattern_marker(r, c) != drawn_pattern_marker(
                r - 1,
                c + 1,
            ));
        }
    }
}

/// Both diagonal directions are required: a winning run may climb either way.
pub fn has_won_diagonally(player: &Player, board: &Board) -> (won: bool)
    requires
        board.wf(),
    ensures
        won == (diagonal_ne_win(*board, *player) || diagonal_se_win(*board, *player)),
{
    has_won_north_east(player, board) || has_won_south_east(player, board)
}

} // verus!
