use vstd::prelude::*;
use rayon::iter::{IntoParallelRefIterator, ParallelIterator};
use crate::board::{Board, ROWS, COLS};
use crate::player::{Player, PlayerType};
use crate::win_condition_strategy::{WinConditionStrategy, strategy_wins};

verus! {

/// What one turn produced. A won or drawn game is resolved by the driver,
/// which answers with a request to start over or to leave.
#[derive(Debug, Eq, PartialEq)]
pub enum TurnOutcome {
    Continue,
    InvalidMove,
    GameWon(Player),
    GameDrawn,
    ExitRequested,
    NewGameRequested,
}

/// The turn engine: a grid, the participants in rotation order, and the
/// scan strategies consulted for a win.
#[derive(Debug)]
pub struct Game {
    pub board: Board,
    pub players: Vec<Player>,
    pub win_condition_strategies: Vec<WinConditionStrategy>,
}

/// The player holds a winning run under one of the game's scan strategies.
pub open spec fn won_by(g: Game, p: Player) -> bool {
    exists|i: int|
        0 <= i < g.win_condition_strategies@.len() && strategy_wins(
            #[trigger] g.win_condition_strategies@[i],
            p,
            g.board,
        )
}

/// The later board is the earlier one with the player's marker written into
/// the cell where a piece dropped into the column comes to rest.
pub open spec fn board_after_move(b0: Board, b1: Board, p: Player, col: int, row: int) -> bool {
    &&& b0.lands_at(col, row)
    &&& b1.wf()
    &&& b1.cell(row, col) == p
    &&& forall|r: int, c: int|
        0 <= r < ROWS as int && 0 <= c < COLS as int && !(r == row && c == col)
            ==> b1.cell(r, c) == b0.cell(r, c)
}

/// A legal move into the column was played between the two boards.
pub open spec fn move_placed(b0: Board, b1: Board, p: Player, col: int) -> bool {
    &&& b0.move_allowed(col)
    &&& exists|row: int| #[trigger] board_after_move(b0, b1, p, col, row)
}

/// Relies on rayon's par_iter over a slice and ParallelIterator::any: the
/// result is true iff the closure returns true of some strategy.
#[verifier::external_body]
fn par_any_strategy_wins(game: &Game, player: &Player) -> (r: bool)
    requires
        game.wf(),
    ensures
        r == won_by(*game, *player),
{
    game.win_condition_strategies.par_iter().any(|s| s.has_won(player, &game.board))
}

/// Relies on rayon's par_iter over a slice and ParallelIterator::any: the
/// result is true iff the closure returns true of some participant.
#[verifier::external_body]
fn par_any_player_won(game: &Game) -> (r: bool)
    requires
        game.wf(),
    ensures
        r == (exists|i: int|
            0 <= i < game.players@.len() && won_by(*game, #[trigger] game.players@[i])),
{
    game.players.par_iter().any(|p| game.has_won(p))
}

impl Game {
    pub open spec fn wf(self) -> bool {
        self.board.wf()
    }

    pub fn new(
        board: Board,
        players: Vec<Player>,
        win_condition_strategies: Vec<WinConditionStrategy>,
    ) -> (g: Game)
        ensures
            g.board == board,
            g.players == players,
            g.win_condition_strategies == win_condition_strategies,
    {
        Self { board, players, win_condition_strategies }
    }

    /// A fresh game between two autonomous participants, checking all axes.
    pub fn create_simulated_game() -> (g: Game)
        ensures
            g.wf(),
            g.board.board_empty(),
            g.players@.len() == 2,
            g.players@[0].id == 1 && g.players@[0].marker == 'x' && g.players@[0].player_type
                == PlayerType::COMPUTER,
            g.players@[1].id == 2 && g.players@[1].marker == 'o' && g.players@[1].player_type
                == PlayerType::COMPUTER,
            g.win_condition_strategies@ == all_strategies(),
    {
        Game::new(
            Board::new(),
            Game::generate_simulation_players(),
            Game::setup_win_condition_strategies(),
        )
    }

    /// The default pairing: one interactive and one autonomous participant.
    pub fn generate_players() -> (v: Vec<Player>)
        ensures
            v@.len() == 2,
            v@[0].id == 1 && v@[0].name@ == "henk-one"@ && v@[0].player_type == PlayerType::HUMAN
                && v@[0].marker == 'x',
            v@[1].id == 2 && v@[1].name@ == "henk-two"@ && v@[1].player_type
                == PlayerType::COMPUTER && v@[1].marker == 'o',
    {
        let mut v: Vec<Player> = Vec::new();
        v.push(Player::new(1, "henk-one", PlayerType::HUMAN, 'x'));
        v.push(Player::new(2, "henk-two", PlayerType::COMPUTER, 'o'));
        v
    }

    /// Two autonomous participants, for a game that plays itself.
    pub fn generate_simulation_players() -> (v: Vec<Player>)
        ensures
            v@.len() == 2,
            v@[0].id == 1 && v@[0].name@ == "henk-one"@ && v@[0].player_type
                == PlayerType::COMPUTER && v@[0].marker == 'x',
            v@[1].id == 2 && v@[1].name@ == "henk-two"@ && v@[1].player_type
                == PlayerType::COMPUTER && v@[1].marker == 'o',
    {
        let mut v: Vec<Player> = Vec::new();
        v.push(Player::new(1, "henk-one", PlayerType::COMPUTER, 'x'));
        v.push(Player::new(2, "henk-two", PlayerType::COMPUTER, 'o'));
        v
    }

    /// All four scan axes: horizontal, vertical, and the two diagonals.
    pub fn setup_win_condition_strategies() -> (v: Vec<WinConditionStrategy>)
        ensures
            v@ == all_strategies(),
    {
        let mut v: Vec<WinConditionStrategy> = Vec::new();
        v.push(WinConditionStrategy::HorizontalWinStrategy);
        v.push(WinConditionStrategy::VerticalWinStrategy);
        v.push(WinConditionStrategy::DiagonalWinStrategy);
        proof {
            assert(v@ =~= all_strategies());
        }
        v
    }

    /// Whether the player holds a winning run under any of this game's
    /// strategies.
    pub fn has_won(&self, player: &Player) -> (r: bool)
        requires
            self.wf(),
        ensures
            r == won_by(*self, *player),
    {
        par_any_strategy_wins(self, player)
    }

    /// Whether any participant of this game holds a winning run.
    pub fn has_winner(&self) -> (r: bool)
        requires
            self.wf(),
        ensures
            r == (exists|i: int|
                0 <= i < self.players@.len() && won_by(*self, #[trigger] self.players@[i])),
    {
        par_any_player_won(self)
    }

    /// One turn transition for a chosen column: locate the landing cell by
    /// gravity, write the mover's marker, check a win for the mover only,
    /// then check for a draw. An illegal column changes nothing.
    pub fn process_move(&mut self, player: &Player, col: u8) -> (o: TurnOutcome)
        requires
            old(self).wf(),
        ensures
            final(self).wf(),
            final(self).players == old(self).players,
            final(self).win_condition_strategies == old(self).win_condition_strategies,
            match o {
                TurnOutcome::InvalidMove => *final(self) == *old(self)
                    && !old(self).board.move_allowed(col as int),
                TurnOutcome::GameWon(winner) => winner == *player && move_placed(
                    old(self).board,
                    final(self).board,
                    *player,
                    col as int,
                ) && won_by(*final(self), *player),
                TurnOutcome::GameDrawn => move_placed(
                    old(self).board,
                    final(self).board,
                    *player,
                    col as int,
                ) && !won_by(*final(self), *player) && final(self).board.board_full(),
                TurnOutcome::Continue => move_placed(
                    old(self).board,
                    final(self).board,
                    *player,
                    col as int,
                ) && !won_by(*final(self), *player) && !final(self).board.board_full(),
                _ => false,
            },
    {
        let maybe_row = self.board.apply_gravity(col);
        if let Some(row) = maybe_row {
            self.board.set_cell(row, col, *player);
            proof {
                assert(board_after_move(
                    old(self).board,
                    self.board,
                    *player,
                    col as int,
                    row as int,
                ));
            }
            if self.has_won(player) {
                TurnOutcome::GameWon(*player)
            } else if self.board.is_full() {
                TurnOutcome::GameDrawn
            } else {
                TurnOutcome::Continue
            }
        } else {
            TurnOutcome::InvalidMove
        }
    }

    /// One full turn for a participant. An autonomous participant draws its
    /// own column among the legal ones; an interactive participant's column
    /// comes from the outside move source, so here that is surfaced as a
    /// move-source failure and the driver hands the column to process_move.
    pub fn process_turn(&mut self, player: &Player) -> (r: Result<TurnOutcome, String>)
        requires
            old(self).wf(),
        ensures
            final(self).wf(),
            final(self).players == old(self).players,
            final(self).win_condition_strategies == old(self).win_condition_strategies,
            match r {
                Result::Ok(o) => player.player_type == PlayerType::COMPUTER && match o {
                    TurnOutcome::GameWon(winner) => winner == *player && (exists|col: int|
                        move_placed(old(self).board, final(self).board, *player, col)) && won_by(
                        *final(self),
                        *player,
                    ),
                    TurnOutcome::GameDrawn => (exists|col: int|
                        move_placed(old(self).board, final(self).board, *player, col)) && !won_by(
                        *final(self),
                        *player,
                    ) && final(self).board.board_full(),
                    TurnOutcome::Continue => (exists|col: int|
                        move_placed(old(self).board, final(self).board, *player, col)) && !won_by(
                        *final(self),
                        *player,
                    ) && !final(self).board.board_full(),
                    _ => false,
                },
                Result::Err(_) => *final(self) == *old(self) && (player.player_type
                    == PlayerType::HUMAN || forall|c: int|
                    0 <= c < COLS as int ==> !old(self).board.move_allowed(c)),
            },
    {
        match player.player_type {
            PlayerType::COMPUTER => {
                match player.generate_move(&self.board) {
                    Ok(col) => {
                        let o = self.process_move(player, col);
                        proof {
                            // the generated column was legal, so the move was
                            // placed; naming it here witnesses the existential
                            if !(o is InvalidMove) {
                                assert(move_placed(old(self).board, self.board, *player, col as int));
                            }
                        }
                        Ok(o)
                    },
                    Err(e) => Err(e),
                }
            },
            PlayerType::HUMAN => Err(
                "interactive participants take their move from the input driver".to_string(),
            ),
        }
    }

    /// Clear the grid for a fresh game.
    pub fn reset_game(&mut self)
        requires
            old(self).wf(),
        ensures
            final(self).wf(),
            final(self).board.board_empty(),
            final(self).players == old(self).players,
            final(self).win_condition_strategies == old(self).win_condition_strategies,
    {
        self.board.clear();
    }

    /// The game-level decision once a game is won or drawn: a confirmed
    /// restart clears the grid and requests a new game; otherwise the
    /// session is asked to end, with nothing changed.
    pub fn resolve_game_over(&mut self, start_new_game: bool) -> (o: TurnOutcome)
        requires
            old(self).wf(),
        ensures
            final(self).wf(),
            final(self).players == old(self).players,
            final(self).win_condition_strategies == old(self).win_condition_strategies,
            start_new_game ==> o == TurnOutcome::NewGameRequested
                && final(self).board.board_empty(),
            !start_new_game ==> o == TurnOutcome::ExitRequested && *final(self) == *old(self),
    {
        if start_new_game {
            self.reset_game();
            TurnOutcome::NewGameRequested
        } else {
            TurnOutcome::ExitRequested
        }
    }

    /// Rotation order: the participant after the given one, wrapping at the
    /// end of the list.
    pub fn next_player_index(&self, current: usize) -> (n: usize)
        requires
            self.players@.len() > 0,
            current < self.players@.len(),
        ensures
            n == (current + 1) as int % self.players@.len() as int,
            n < self.players@.len(),
    {
        let len = self.players.len();
        (current + 1) % len
    }
}

/// The strategy list a standard game checks, in order.
pub open spec fn all_strategies() -> Seq<WinConditionStrategy> {
    seq![
        WinConditionStrategy::HorizontalWinStrategy,
        WinConditionStrategy::VerticalWinStrategy,
        WinConditionStrategy::DiagonalWinStrategy,
    ]
}

} // verus!
