pub mod board;
pub mod game;
pub mod player;
pub mod win_condition_strategy;
