//! Queen moves.

use vstd::prelude::*;
use crate::errors::ChessError;
use crate::moves::make_move::{moves_view, Move};
use crate::position::Position;
use crate::{Piece, Square};

verus! {

impl Position {
    /// What `queen_targets` returns: the error of the first check that fails
    /// on the source square, else the moves along the file and the rank
    /// followed by the moves along the diagonals.
    pub open spec fn spec_queen_targets(&self, from_square: Square) -> Result<
        Seq<Move>,
        ChessError,
    > {
        match self.spec_validated_colored_piece(from_square, Piece::Queen) {
            Err(e) => Err(e),
            Ok(queen) => Ok(
                self.orthogonal_moves(from_square, queen) + self.diagonal_moves(from_square, queen),
            ),
        }
    }

    /// The moves of the queen on `from_square`.
    pub fn queen_targets(&self, from_square: Square) -> (res: Result<Vec<Move>, ChessError>)
        ensures
            moves_view(res) == self.spec_queen_targets(from_square),
    {
        let mut target_moves: Vec<Move> = Vec::with_capacity(27);

        let queen = match self.get_validated_colored_piece(from_square, Piece::Queen) {
            Ok(x) => x,
            Err(x) => return Err(x),
        };

        self.horizontal_vertical_slider(from_square, queen, &mut target_moves);
        self.diagonal_slider(from_square, queen, &mut target_moves);
        assert(target_moves@ =~= self.orthogonal_moves(from_square, queen) + self.diagonal_moves(
            from_square,
            queen,
        ));

        Ok(target_moves)
    }
}

} // verus!
