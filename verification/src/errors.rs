//! The errors that the engine reports.

use vstd::prelude::*;
use crate::{Piece, Side, Square};

verus! {

/// Why a query, a generator or the move applier refused its input.
#[derive(Copy, Clone, Debug, PartialEq, Eq)]
pub enum ChessError {
    PromotionPieceCantBeEmpty,
    NotASquareOnBoard { square: Square },
    NoPieceOnSquare { square: Square },
    WrongPieceType { expected_piece: Piece, found_piece: Piece },
    WrongSide { expected_side: Side, found_side: Side },
}

/// Why a position string could not be decoded.
#[derive(Copy, Clone, Debug, PartialEq, Eq)]
pub enum FenError {
    InvalidPieceChar(char),
    SquareLenghtIsnt2Wide(usize),
    OutOfBounds(u8),
    InvalidFile(char),
    InvalidRank(char),
    InvalidCastlingRights(char),
    MissingFenParts,
    NotAValideSide,
}

} // verus!
