//! The move generators, one per piece kind, and the attack detector.

pub mod bishop;
pub mod check;
pub mod king;
pub mod knight;
pub mod move_gen;
pub mod pawn;
pub mod queen;
pub mod rook;
pub mod slider;
