use connect_four::board::Board;
use connect_four::game::{Game, TurnOutcome};
use connect_four::player::{Player, PlayerType};
use connect_four::win_condition_strategy::WinConditionStrategy;

fn marked(marker: char) -> Player {
    let mut p = Player::default();
    p.marker = marker;
    p
}

fn boards_equal(a: &Board, b: &Board) -> bool {
    for r in 0..a.get_rows() {
        for c in 0..a.get_cols() {
            if a.get_cell(r, c) != b.get_cell(r, c) {
                return false;
            }
        }
    }
    true
}

#[test]
fn empty_grid_has_no_win() {
    let b = Board::new();
    let p = marked('x');
    let strategies = vec![
        WinConditionStrategy::HorizontalWinStrategy,
        WinConditionStrategy::VerticalWinStrategy,
        WinConditionStrategy::DiagonalWinStrategy,
    ];
    for s in &strategies {
        assert_eq!(s.has_won(&p, &b), false);
    }
}

#[test]
fn full_pattern_has_no_win_for_any_marker() {
    let b = Board::generate_full_board();
    for marker in ['x', 'o', 'v', '@'] {
        let p = marked(marker);
        let strategies = vec![
            WinConditionStrategy::HorizontalWinStrategy,
            WinConditionStrategy::VerticalWinStrategy,
            WinConditionStrategy::DiagonalWinStrategy,
        ];
        for s in &strategies {
            assert_eq!(s.has_won(&p, &b), false);
        }
    }
}

#[test]
fn horizontal_win_is_seen_by_horizontal_scan_only() {
    let p = marked('x');
    let b = Board::generate_horizontal_win(&p, 4);
    assert_eq!(WinConditionStrategy::HorizontalWinStrategy.has_won(&p, &b), true);
    assert_eq!(WinConditionStrategy::VerticalWinStrategy.has_won(&p, &b), false);
    assert_eq!(WinConditionStrategy::DiagonalWinStrategy.has_won(&p, &b), false);
}

#[test]
fn vertical_win_is_seen_by_vertical_scan_only() {
    let p = marked('x');
    let b = Board::generate_vertical_win(&p, 4);
    assert_eq!(WinConditionStrategy::VerticalWinStrategy.has_won(&p, &b), true);
    assert_eq!(WinConditionStrategy::HorizontalWinStrategy.has_won(&p, &b), false);
    assert_eq!(WinConditionStrategy::DiagonalWinStrategy.has_won(&p, &b), false);
}

#[test]
fn diagonal_south_east_win_is_seen_by_diagonal_scan_only() {
    let p = marked('x');
    let b = Board::generate_diagonal_south_east_win(&p, 4);
    assert_eq!(WinConditionStrategy::DiagonalWinStrategy.has_won(&p, &b), true);
    assert_eq!(WinConditionStrategy::HorizontalWinStrategy.has_won(&p, &b), false);
    assert_eq!(WinConditionStrategy::VerticalWinStrategy.has_won(&p, &b), false);
}

#[test]
fn diagonal_north_east_win_is_seen_by_diagonal_scan_only() {
    let p = marked('x');
    let b = Board::generate_diagonal_north_east_win(&p, 4);
    assert_eq!(WinConditionStrategy::DiagonalWinStrategy.has_won(&p, &b), true);
    assert_eq!(WinConditionStrategy::HorizontalWinStrategy.has_won(&p, &b), false);
    assert_eq!(WinConditionStrategy::VerticalWinStrategy.has_won(&p, &b), false);
}

#[test]
fn has_won_is_idempotent_on_an_unmutated_grid() {
    let p = marked('x');
    let b = Board::generate_horizontal_win(&p, 3);
    let s = WinConditionStrategy::HorizontalWinStrategy;
    let first = s.has_won(&p, &b);
    let second = s.has_won(&p, &b);
    assert_eq!(first, second);

    let winning = Board::generate_horizontal_win(&p, 4);
    assert_eq!(s.has_won(&p, &winning), s.has_won(&p, &winning));
}

#[test]
fn invalid_move_never_mutates_the_grid() {
    let p = marked('x');
    let mut b = Board::new();
    for r in 0..b.get_rows() {
        b.set_cell(r, 2, p);
    }
    let before = Board {
        data: b.data.clone(),
    };

    // the column index is out of range
    assert_eq!(b.apply_gravity(9), None);
    assert!(boards_equal(&before, &b));

    // the column exists but is full
    assert_eq!(b.apply_gravity(2), None);
    assert!(boards_equal(&before, &b));
}

#[test]
fn process_move_rejects_invalid_column_without_mutation() {
    let mut game = Game::create_simulated_game();
    let player = game.players[0];
    let before = Board {
        data: game.board.data.clone(),
    };
    let outcome = game.process_move(&player, 7);
    assert_eq!(outcome, TurnOutcome::InvalidMove);
    assert!(boards_equal(&before, &game.board));
}

#[test]
fn gravity_stacks_one_row_above_each_piece() {
    let mut b = Board::new();
    let p = marked('x');
    for expected_row in (0..b.get_rows()).rev() {
        let landing = b.apply_gravity(3);
        assert_eq!(landing, Some(expected_row));
        b.set_cell(expected_row, 3, p);
    }
    assert_eq!(b.apply_gravity(3), None);
}

#[test]
fn column_fills_up_and_reports_full() {
    let mut b = Board::new();
    let p = marked('o');
    for r in 0..b.get_rows() {
        assert_eq!(b.is_column_full(5), false);
        b.set_cell(r, 5, p);
    }
    assert_eq!(b.is_column_full(5), true);
}

#[test]
fn valid_move_rejects_out_of_range_and_full_board() {
    let b = Board::new();
    assert_eq!(b.is_valid_move(7), false);
    assert_eq!(b.is_valid_move(200), false);
    assert_eq!(b.is_valid_move(0), true);

    // a board whose top row is occupied counts as full, so every move is
    // rejected even though the lower rows of each column still have room
    let mut top_filled = Board::new();
    let p = marked('x');
    for c in 0..top_filled.get_cols() {
        top_filled.set_cell(0, c, p);
    }
    assert_eq!(top_filled.is_full(), true);
    for c in 0..top_filled.get_cols() {
        assert_eq!(top_filled.is_valid_move(c), false);
    }
}

#[test]
fn generate_move_picks_a_legal_column() {
    let b = Board::new();
    let p = Player::new(2, "henk-two", PlayerType::COMPUTER, 'o');
    for _ in 0..20 {
        let col = p.generate_move(&b).unwrap();
        assert!(col < b.get_cols());
        assert!(b.is_valid_move(col));
    }
}

#[test]
fn generate_move_fails_on_a_full_board() {
    let b = Board::generate_full_board();
    let p = Player::new(2, "henk-two", PlayerType::COMPUTER, 'o');
    assert!(p.generate_move(&b).is_err());
}

#[test]
fn get_available_cols_lists_exactly_the_open_columns() {
    let mut b = Board::new();
    let p = marked('x');
    for r in 0..b.get_rows() {
        b.set_cell(r, 0, p);
    }
    let cols = b.get_available_cols().unwrap();
    assert_eq!(cols, vec![1, 2, 3, 4, 5, 6]);

    let full = Board::generate_full_board();
    assert_eq!(full.get_available_cols(), None);
}

#[test]
fn completing_a_run_wins_the_game() {
    let mut game = Game::create_simulated_game();
    let player = game.players[0];
    for c in 0..3 {
        game.board.set_cell(5, c, player);
    }
    let outcome = game.process_move(&player, 3);
    assert_eq!(outcome, TurnOutcome::GameWon(player));
}

#[test]
fn filling_the_last_cell_without_a_win_draws_the_game() {
    let mut game = Game::create_simulated_game();
    game.board = Board::generate_full_board();
    // reopen one cell at the top and let a fresh marker take it
    game.board.set_cell(0, 0, Player::default());
    let p = Player::new(9, "closer", PlayerType::COMPUTER, 'q');
    let outcome = game.process_move(&p, 0);
    assert_eq!(outcome, TurnOutcome::GameDrawn);
}

#[test]
fn ordinary_move_continues_the_game() {
    let mut game = Game::create_simulated_game();
    let player = game.players[1];
    let outcome = game.process_move(&player, 4);
    assert_eq!(outcome, TurnOutcome::Continue);
    assert_eq!(game.board.get_cell(5, 4), player);
}

#[test]
fn resolve_game_over_restarts_or_ends() {
    let mut game = Game::create_simulated_game();
    let player = game.players[0];
    for c in 0..4 {
        game.board.set_cell(5, c, player);
    }
    assert_eq!(game.resolve_game_over(true), TurnOutcome::NewGameRequested);
    for r in 0..game.board.get_rows() {
        for c in 0..game.board.get_cols() {
            assert!(!game.board.get_cell(r, c).occupied());
        }
    }

    let untouched = Board {
        data: game.board.data.clone(),
    };
    assert_eq!(game.resolve_game_over(false), TurnOutcome::ExitRequested);
    assert!(boards_equal(&untouched, &game.board));
}

#[test]
fn clear_empties_every_cell() {
    let mut b = Board::generate_full_board();
    assert!(b.get_cell(0, 0).occupied());
    b.clear();
    for r in 0..b.get_rows() {
        for c in 0..b.get_cols() {
            assert!(!b.get_cell(r, c).occupied());
        }
    }
}

#[test]
fn rotation_wraps_around_the_player_list() {
    let game = Game::create_simulated_game();
    assert_eq!(game.next_player_index(0), 1);
    assert_eq!(game.next_player_index(1), 0);
}

#[test]
fn interactive_turn_needs_the_input_driver() {
    let mut game = Game::create_simulated_game();
    let human = Player::new(3, "visitor", PlayerType::HUMAN, 'h');
    assert!(game.process_turn(&human).is_err());
}

#[test]
fn simulated_turn_on_a_full_board_fails() {
    let mut game = Game::create_simulated_game();
    game.board = Board::generate_full_board();
    let player = game.players[0];
    assert!(game.process_turn(&player).is_err());
}
