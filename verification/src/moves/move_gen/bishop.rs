//! Bishop moves.

use vstd::prelude::*;
use crate::errors::ChessError;
use crate::moves::make_move::{moves_view, Move};
use crate::position::Position;
use crate::{Piece, Square};

verus! {

impl Position {
    /// What `bishop_targets` returns: the error of the first check that
    /// fails on the source square, else the moves along the diagonals.
    pub open spec fn spec_bishop_targets(&self, from_square: Square) -> Result<
        Seq<Move>,
        ChessError,
    > {
        match self.spec_validated_colored_piece(from_square, Piece::Bishop) {
            Err(e) => Err(e),
            Ok(bishop) => Ok(self.diagonal_moves(from_square, bishop)),
        }
    }

    /// The moves of the bishop on `from_square`.
    pub fn bishop_targets(&self, from_square: Square) -> (res: Result<Vec<Move>, ChessError>)
        ensures
            moves_view(res) == self.spec_bishop_targets(from_square),
    {
        let mut to_moves: Vec<Move> = Vec::with_capacity(13);

        let bishop = match self.get_validated_colored_piece(from_square, Piece::Bishop) {
            Ok(x) => x,
            Err(x) => return Err(x),
        };

        self.diagonal_slider(from_square, bishop, &mut to_moves);
        assert(to_moves@ =~= self.diagonal_moves(from_square, bishop));

        Ok(to_moves)
    }
}

} // verus!
