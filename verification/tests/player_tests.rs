use connect_four::board::Board;
use connect_four::player::Player;

#[test]
fn out_of_bound_move_rejected() {
    let mut b = Board::generate_full_board();
    let mut p = Player::default();
    p.marker = 'x';
    assert_eq!(b.apply_gravity(b.get_cols()), None);
}
