//! Rook moves.

use vstd::prelude::*;
use crate::errors::ChessError;
use crate::moves::make_move::{moves_view, Move};
use crate::position::Position;
use crate::{Piece, Square};

verus! {

impl Position {
    /// What `rook_targets` returns: the error of the first check that fails
    /// on the source square, else the moves along the file and the rank.
    pub open spec fn spec_rook_targets(&self, from_square: Square) -> Result<
        Seq<Move>,
        ChessError,
    > {
        match self.spec_validated_colored_piece(from_square, Piece::Rook) {
            Err(e) => Err(e),
            Ok(rook) => Ok(self.orthogonal_moves(from_square, rook)),
        }
    }

    /// The moves of the rook on `from_square`.
    pub fn rook_targets(&self, from_square: Square) -> (res: Result<Vec<Move>, ChessError>)
        ensures
            moves_view(res) == self.spec_rook_targets(from_square),
    {
        let mut target_moves: Vec<Move> = Vec::with_capacity(14);

        let rook = match self.get_validated_colored_piece(from_square, Piece::Rook) {
            Ok(x) => x,
            Err(x) => return Err(x),
        };

        self.horizontal_vertical_slider(from_square, rook, &mut target_moves);
        assert(target_moves@ =~= self.orthogonal_moves(from_square, rook));

        Ok(target_moves)
    }
}

} // verus!
