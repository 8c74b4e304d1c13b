use connect_four::board::Board;
use connect_four::game::{Game, TurnOutcome};

#[test]
fn full_board_has_no_winner() {
    let mut game = Game::create_simulated_game();
    game.board = Board::generate_full_board();
    assert_eq!(game.has_winner(), false);
}

#[test]
fn game_has_winner() {
    let mut game = Game::create_simulated_game();

    let boards_with_winner = vec![
        Board::generate_horizontal_win(&game.players[0], 4),
        Board::generate_vertical_win(&game.players[0], 4),
        Board::generate_diagonal_north_east_win(&game.players[0], 4),
        Board::generate_diagonal_south_east_win(&game.players[0], 4),
    ];

    for board in boards_with_winner {
        game.board = board;
        assert_eq!(game.has_winner(), true);
    }
}

#[test]
fn legal_move_continues_game() {
    let mut game = Game::create_simulated_game();
    let player = &game.players[0].clone();
    let turn_outcome = &game.process_turn(player);
    assert_eq!(*turn_outcome, Ok(TurnOutcome::Continue));
}
