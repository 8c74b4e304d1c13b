use connect_four::board::Board;
use connect_four::player::Player;

#[test]
fn gravity_works() {
    let mut b = Board::new();
    // on an empty board, expect the piece to fall all the way down
    assert_eq!(b.apply_gravity(0), Some(b.get_rows() - 1));

    let mut p = Player::default();
    p.marker = 'x';
    // hardcode player p at the bottom of the first column
    b.set_cell(b.get_rows() - 1, 0, p);

    // now expect it to land one higher
    assert_eq!(b.apply_gravity(0), Some(b.get_rows() - 2));
}

#[test]
fn board_full_works() {
    let b = Board::generate_full_board();
    assert_eq!(b.is_full(), true);
}

#[test]
fn inserting_full_column_impossible() {
    let mut b = Board::new();
    let mut p1 = Player::default();
    p1.marker = 'x';

    // fill column 0 with players
    for i in 0..b.get_rows() {
        b.set_cell(i, 0, p1);
    }

    assert_eq!(b.is_column_full(0), true);
}
