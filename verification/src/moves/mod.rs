//! Moves: how they are applied and how they are generated.

pub mod make_move;
pub mod move_gen;
