use connect_four::board::Board;
use connect_four::player::Player;
use connect_four::win_condition_strategy::WinConditionStrategy;

#[test]
fn has_won_horizontally() {
    let mut p = Player::default();
    p.marker = 'x';
    let b = Board::generate_horizontal_win(&p, 4);
    let horizontal_strategy = WinConditionStrategy::HorizontalWinStrategy;
    assert_eq!(horizontal_strategy.has_won(&p, &b), true);
}

#[test]
fn has_won_vertically() {
    let mut p = Player::default();
    p.marker = 'x';
    let b = Board::generate_vertical_win(&p, 4);
    let horizontal_strategy = WinConditionStrategy::VerticalWinStrategy;
    assert_eq!(horizontal_strategy.has_won(&p, &b), true);
}

#[test]
fn has_won_diagonally_south_east() {
    let mut p = Player::default();
    p.marker = 'x';
    let b = Board::generate_diagonal_south_east_win(&p, 4);
    let diagonal_strategy = WinConditionStrategy::DiagonalWinStrategy;
    assert_eq!(diagonal_strategy.has_won(&p, &b), true);
}

#[test]
fn has_won_diagonally_north_east() {
    let mut p = Player::default();
    p.marker = 'x';
    let b = Board::generate_diagonal_north_east_win(&p, 4);
    let diagonal_strategy = WinConditionStrategy::DiagonalWinStrategy;
    assert_eq!(diagonal_strategy.has_won(&p, &b), true);
}

#[test]
fn game_drawn() {
    let b = Board::generate_full_board();
    let all_strategies = vec![
        WinConditionStrategy::HorizontalWinStrategy,
        WinConditionStrategy::VerticalWinStrategy,
    ];
    let mut p = Player::default();
    p.marker = 'x';
    assert_eq!(all_strategies.iter().any(|strategy| strategy.has_won(&p, &b)), false);
}
