use vstd::prelude::*;
use rand::seq::SliceRandom;
use crate::board::{Board, COLS};

verus! {

/// Whether a participant is driven by keyboard input or picks its own moves.
#[derive(Debug, Clone, Copy, PartialEq, Eq, Structural)]
pub enum PlayerType {
    HUMAN,
    COMPUTER,
}

/// A participant: identity, display name, marker symbol, and kind.
#[derive(Debug, Clone, Copy, PartialEq, Eq)]
pub struct Player {
    pub id: u8,
    pub player_type: PlayerType,
    pub name: &'static str,
    pub marker: char,
}

/// Two players stand for the same participant when their identity fields
/// (id, marker, kind) agree; the display name carries no identity.
pub open spec fn same_player(a: Player, b: Player) -> bool {
    a.id == b.id && a.marker == b.marker && a.player_type == b.player_type
}

/// A blank player value marks an unoccupied cell.
pub open spec fn is_blank(p: Player) -> bool {
    p.id == 0 && p.marker == ' ' && p.player_type == PlayerType::COMPUTER
}

impl Player {
    pub fn new(id: u8, name: &'static str, player_type: PlayerType, marker: char) -> (p: Player)
        ensures
            p.id == id && p.name == name && p.player_type == player_type && p.marker == marker,
    {
        Self { id, name, player_type, marker }
    }

    /// The blank player that fills unoccupied cells.
    pub fn default() -> (p: Player)
        ensures
            is_blank(p),
            p == (Player { id: 0, name: p.name, player_type: PlayerType::COMPUTER, marker: ' ' }),
    {
        Self { id: 0, name: "", player_type: PlayerType::COMPUTER, marker: ' ' }
    }

    /// Identity comparison: the relation that win detection and occupancy use.
    pub fn same_as(&self, other: &Player) -> (r: bool)
        ensures
            r == same_player(*self, *other),
    {
        self.id == other.id && self.marker == other.marker
            && self.player_type == other.player_type
    }

    /// Whether this cell value is occupied by an actual participant.
    pub fn occupied(&self) -> (r: bool)
        ensures
            r == !is_blank(*self),
    {
        !(self.id == 0 && self.marker == ' ' && self.player_type == PlayerType::COMPUTER)
    }

    /// An autonomous participant's move: one of the currently legal columns,
    /// picked at random; fails exactly when no legal column is left.
    pub fn generate_move(&self, board: &Board) -> (r: Result<u8, String>)
        requires
            board.wf(),
        ensures
            match r {
                Result::Ok(col) => board.move_allowed(col as int),
                Result::Err(_) => forall|c: int| 0 <= c < COLS as int ==> !board.move_allowed(c),
            },
    {
        if let Some(available_cols) = board.get_available_cols() {
            if let Some(chosen_col) = choose_column(&available_cols) {
                proof {
                    let i = choose|i: int|
                        0 <= i < available_cols@.len() && available_cols@[i] == chosen_col;
                    assert(board.move_allowed(available_cols@[i] as int));
                }
                Ok(chosen_col)
            } else {
                Err("Could not generate move".to_string())
            }
        } else {
            Err("No available columns".to_string())
        }
    }
}

/// Relies on rand's SliceRandom::choose with rand::thread_rng: the result is
/// one element of the slice, and nothing iff the slice is empty. Which
/// element comes back depends on the generator's state, so no more is stated.
#[verifier::external_body]
fn choose_column(cols: &Vec<u8>) -> (r: Option<u8>)
    ensures
        match r {
            Option::Some(c) => cols@.contains(c),
            Option::None => cols@.len() == 0,
        },
{
    let mut rng = rand::thread_rng();
    cols.choose(&mut rng).copied()
}

} // verus!
