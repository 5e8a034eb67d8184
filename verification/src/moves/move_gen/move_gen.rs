//! The dispatcher: the moves of whatever piece stands on a square.

use vstd::prelude::*;
use crate::errors::ChessError;
use crate::moves::make_move::{moves_view, Move};
use crate::position::Position;
use crate::{on_board, Piece, Square};

verus! {

/// What `get_possible_moves` returns: an error for a square off the board or
/// an empty one, else what the generator of the piece on the square returns.
pub open spec fn spec_possible_moves(position: &Position, from_square: Square) -> Result<
    Seq<Move>,
    ChessError,
> {
    if !on_board(from_square as int) {
        Err(ChessError::NotASquareOnBoard { square: from_square })
    } else {
        match position.board@[from_square as int] {
            None => Err(ChessError::NoPieceOnSquare { square: from_square }),
            Some(piece) => match piece.piece {
                Piece::Rook => position.spec_rook_targets(from_square),
                Piece::Bishop => position.spec_bishop_targets(from_square),
                Piece::King => position.spec_king_targets(from_square),
                Piece::Pawn => position.spec_pawn_targets(from_square),
                Piece::Knight => position.spec_knight_targets(from_square),
                Piece::Queen => position.spec_queen_targets(from_square),
            },
        }
    }
}

/// The moves of the piece on `from_square`, by the generator for its kind.
pub fn get_possible_moves(position: &Position, from_square: Square) -> (res: Result<
    Vec<Move>,
    ChessError,
>)
    ensures
        moves_view(res) == spec_possible_moves(position, from_square),
{
    if from_square > 63 {
        return Err(ChessError::NotASquareOnBoard { square: from_square });
    }

    let piece = match position.board[from_square as usize] {
        Some(p) => p,
        None => return Err(ChessError::NoPieceOnSquare { square: from_square }),
    };

    match piece.piece {
        Piece::Rook => position.rook_targets(from_square),
        Piece::Bishop => position.bishop_targets(from_square),
        Piece::King => position.king_targets(from_square),
        Piece::Pawn => position.pawn_targets(from_square),
        Piece::Knight => position.knight_targets(from_square),
        Piece::Queen => position.queen_targets(from_square),
    }
}

/// Generating twice from one position and one square gives the same outcome:
/// the same error, or the same moves, in the same order and so as a
/// collection without order too.
pub proof fn lemma_generation_is_deterministic(
    position: Position,
    from_square: Square,
    first: Result<Vec<Move>, ChessError>,
    second: Result<Vec<Move>, ChessError>,
)
    requires
        moves_view(first) == spec_possible_moves(&position, from_square),
        moves_view(second) == spec_possible_moves(&position, from_square),
    ensures
        moves_view(first) == moves_view(second),
        first is Ok <==> second is Ok,
        first is Ok ==> first->Ok_0@.to_multiset() == second->Ok_0@.to_multiset(),
{
}

/// Every move that is generated is a move of the piece on the source square,
/// which belongs to the side to move, to a square of the board, and can be
/// applied to the position: at once, or, where it is a promotion, as soon as
/// its piece has been chosen.
pub proof fn lemma_generated_moves_apply(position: Position, from_square: Square)
    requires
        spec_possible_moves(&position, from_square) is Ok,
    ensures
        on_board(from_square as int),
        position.board@[from_square as int] is Some,
        position.board@[from_square as int]->0.side == position.side_to_move,
        position.offers_all(
            from_square,
            position.board@[from_square as int]->0,
            spec_possible_moves(&position, from_square)->Ok_0,
        ),
{
    let mover = position.board@[from_square as int]->0;
    match mover.piece {
        Piece::Rook => {
            position.lemma_slides_offered(from_square, mover);
        },
        Piece::Bishop => {
            position.lemma_slides_offered(from_square, mover);
        },
        Piece::Queen => {
            position.lemma_slides_offered(from_square, mover);
            position.lemma_offers_joined(
                from_square,
                mover,
                position.orthogonal_moves(from_square, mover),
                position.diagonal_moves(from_square, mover),
            );
        },
        Piece::King => {
            position.lemma_king_moves_offered(from_square, mover);
        },
        Piece::Knight => {
            position.lemma_knight_moves_offered(from_square, mover);
        },
        Piece::Pawn => {
            position.lemma_pawn_moves_offered(from_square, mover);
        },
    }
}

} // verus!
