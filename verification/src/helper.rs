//! What the generators share: the checks on the source square and the steps
//! from one square to another.

use vstd::prelude::*;
use crate::errors::ChessError;
use crate::position::Position;
use crate::moves::move_gen::slider::{file_step, is_ray_direction, rank_step};
use crate::{
    file, in_grid, on_board, rank, spec_file, spec_rank, spec_square, ColoredPiece, Piece, Side,
    Square,
};

verus! {

/// The outcome of the range check on a square.
pub open spec fn spec_square_on_board(from_square: Square) -> Result<(), ChessError> {
    if on_board(from_square as int) {
        Ok(())
    } else {
        Err(ChessError::NotASquareOnBoard { square: from_square })
    }
}

/// The outcome of comparing a piece's kind with the expected one.
pub open spec fn spec_right_piece_type(from_piece: ColoredPiece, expected_piece: Piece) -> Result<
    (),
    ChessError,
> {
    if from_piece.piece == expected_piece {
        Ok(())
    } else {
        Err(ChessError::WrongPieceType { expected_piece, found_piece: from_piece.piece })
    }
}

/// The outcome of comparing a piece's side with the expected one.
pub open spec fn spec_right_piece_side(from_piece: ColoredPiece, expected_side: Side) -> Result<
    (),
    ChessError,
> {
    if from_piece.side == expected_side {
        Ok(())
    } else {
        Err(ChessError::WrongSide { expected_side, found_side: from_piece.side })
    }
}

/// The distance between two files or two ranks.
pub open spec fn spec_distance(a: int, b: int) -> int {
    if a >= b {
        a - b
    } else {
        b - a
    }
}

/// The distance between two files or two ranks.
pub(crate) fn distance(a: u8, b: u8) -> (d: u8)
    ensures
        d as int == spec_distance(a as int, b as int),
{
    if a >= b {
        a - b
    } else {
        b - a
    }
}

/// The square whose index is `offset` more than that of `from`, if there is
/// one. Nothing keeps such a step from leaving the board on one side and
/// coming back on the other.
pub open spec fn spec_offset_square(from: int, offset: int) -> Option<Square> {
    if on_board(from + offset) {
        Some((from + offset) as u8)
    } else {
        None
    }
}

/// The square `df` files and `dr` ranks away from `from`, if the board has
/// one there.
pub open spec fn spec_shifted(from: int, df: int, dr: int) -> Option<Square> {
    let f = spec_file(from) + df;
    let r = spec_rank(from) + dr;
    if in_grid(f, r) {
        Some(spec_square(f, r) as u8)
    } else {
        None
    }
}

/// Whether `offset` is the difference of index that one of the eight knight
/// jumps makes.
pub open spec fn is_knight_offset(offset: int) -> bool {
    offset == -17 || offset == -15 || offset == -10 || offset == -6 || offset == 6 || offset == 10
        || offset == 15 || offset == 17
}

/// By how much the knight jump `offset` changes the file.
pub open spec fn knight_file_step(offset: int) -> int {
    if offset == -10 || offset == 6 {
        -2
    } else if offset == -17 || offset == 15 {
        -1
    } else if offset == -15 || offset == 17 {
        1
    } else {
        2
    }
}

/// By how much the knight jump `offset` changes the rank.
pub open spec fn knight_rank_step(offset: int) -> int {
    if offset <= -15 {
        -2
    } else if offset < 0 {
        -1
    } else if offset <= 10 {
        1
    } else {
        2
    }
}

/// The square at index `from_square + offset`, if that index is on the board.
pub(crate) fn offset_square(from_square: Square, offset: i16) -> (res: Option<Square>)
    requires
        -64 <= offset <= 64,
    ensures
        res == spec_offset_square(from_square as int, offset as int),
{
    let candidate_i: i16 = from_square as i16 + offset;
    if candidate_i < 0 || candidate_i > 63 {
        None
    } else {
        Some(candidate_i as u8)
    }
}

/// The neighbour of `from_square` in `direction`, if the board has one. The
/// index is moved by `direction`; a result whose file or rank is more than
/// one away has left the board on one side and come back on the other, and is
/// refused.
pub(crate) fn king_step(from_square: Square, direction: i16) -> (res: Option<Square>)
    requires
        on_board(from_square as int),
        is_ray_direction(direction as int),
    ensures
        res == spec_shifted(
            from_square as int,
            file_step(direction as int),
            rank_step(direction as int),
        ),
{
    let candidate_i: i16 = from_square as i16 + direction;
    if candidate_i < 0 || candidate_i > 63 {
        return None;
    }
    let file_difference: u8 = distance(file(candidate_i as u8), file(from_square));
    let rank_difference: u8 = distance(rank(candidate_i as u8), rank(from_square));
    if file_difference > 1 || rank_difference > 1 {
        return None;
    }
    Some(candidate_i as u8)
}

/// The square that the knight jump `offset` reaches from `from_square`, if
/// the board has one. The index is moved by `offset`; a result that is not
/// one file and two ranks away, or two files and one rank, has crossed an
/// edge and is refused.
pub(crate) fn knight_jump(from_square: Square, offset: i16) -> (res: Option<Square>)
    requires
        on_board(from_square as int),
        is_knight_offset(offset as int),
    ensures
        res == spec_shifted(
            from_square as int,
            knight_file_step(offset as int),
            knight_rank_step(offset as int),
        ),
{
    let candidate_i: i16 = from_square as i16 + offset;
    if candidate_i < 0 || candidate_i > 63 {
        return None;
    }
    let file_difference: u8 = distance(file(candidate_i as u8), file(from_square));
    let rank_difference: u8 = distance(rank(candidate_i as u8), rank(from_square));
    let is_allowed_jump = (file_difference == 2 && rank_difference == 1) || (file_difference == 1
        && rank_difference == 2);
    if !is_allowed_jump {
        return None;
    }
    Some(candidate_i as u8)
}

/// A value occurs in a concatenation exactly when it occurs in one of its
/// two parts.
pub proof fn lemma_concat_contains<T>(a: Seq<T>, b: Seq<T>, x: T)
    ensures
        (a + b).contains(x) <==> a.contains(x) || b.contains(x),
{
    if a.contains(x) {
        let i = choose|i: int| 0 <= i < a.len() && a[i] == x;
        assert((a + b)[i] == x);
    }
    if b.contains(x) {
        let i = choose|i: int| 0 <= i < b.len() && b[i] == x;
        assert((a + b)[a.len() + i] == x);
    }
    if (a + b).contains(x) {
        let i = choose|i: int| 0 <= i < (a + b).len() && (a + b)[i] == x;
        if i < a.len() {
            assert(a[i] == x);
        } else {
            assert(b[i - a.len()] == x);
        }
    }
}

/// Appending eight sequences one after the other appends their
/// concatenation.
pub proof fn lemma_append_eight<T>(
    s: Seq<T>,
    a0: Seq<T>,
    a1: Seq<T>,
    a2: Seq<T>,
    a3: Seq<T>,
    a4: Seq<T>,
    a5: Seq<T>,
    a6: Seq<T>,
    a7: Seq<T>,
)
    ensures
        s + a0 + a1 + a2 + a3 + a4 + a5 + a6 + a7 == s + (a0 + a1 + a2 + a3 + a4 + a5 + a6 + a7),
{
    assert(s + a0 + a1 + a2 + a3 + a4 + a5 + a6 + a7 =~= s + (a0 + a1 + a2 + a3 + a4 + a5 + a6
        + a7));
}

/// Checks that a `Square` is one of the 64 squares of the board.
pub fn is_square_on_board(from_square: Square) -> (res: Result<(), ChessError>)
    ensures
        res == spec_square_on_board(from_square),
{
    if from_square > 63 {
        Err(ChessError::NotASquareOnBoard { square: from_square })
    } else {
        Ok(())
    }
}

/// Checks that a piece is of the expected kind.
pub fn is_right_piece_type(from_piece: ColoredPiece, expected_piece: Piece) -> (res: Result<
    (),
    ChessError,
>)
    ensures
        res == spec_right_piece_type(from_piece, expected_piece),
{
    if from_piece.piece != expected_piece {
        return Err(ChessError::WrongPieceType { expected_piece, found_piece: from_piece.piece });
    }
    Ok(())
}

/// Checks that a piece belongs to the expected side.
pub fn is_right_piece_side(from_piece: ColoredPiece, expected_side: Side) -> (res: Result<
    (),
    ChessError,
>)
    ensures
        res == spec_right_piece_side(from_piece, expected_side),
{
    if from_piece.side != expected_side {
        Err(ChessError::WrongSide { expected_side, found_side: from_piece.side })
    } else {
        Ok(())
    }
}

impl Position {
    /// The piece on `from_square`: an error if the square is off the board,
    /// else an error if it is empty.
    pub open spec fn spec_colored_piece_from_square(&self, from_square: Square) -> Result<
        ColoredPiece,
        ChessError,
    > {
        if !on_board(from_square as int) {
            Err(ChessError::NotASquareOnBoard { square: from_square })
        } else {
            match self.board@[from_square as int] {
                Some(p) => Ok(p),
                None => Err(ChessError::NoPieceOnSquare { square: from_square }),
            }
        }
    }

    /// The piece on `from_square`, checked in this order: the square is on the
    /// board, it holds a piece, the piece is of the expected kind, the piece
    /// belongs to the side to move. The first check that fails gives the error.
    pub open spec fn spec_validated_colored_piece(
        &self,
        from_square: Square,
        expected_piece: Piece,
    ) -> Result<ColoredPiece, ChessError> {
        match self.spec_colored_piece_from_square(from_square) {
            Err(e) => Err(e),
            Ok(p) => if p.piece != expected_piece {
                Err(ChessError::WrongPieceType { expected_piece, found_piece: p.piece })
            } else if p.side != self.side_to_move {
                Err(ChessError::WrongSide { expected_side: self.side_to_move, found_side: p.side })
            } else {
                Ok(p)
            },
        }
    }

    /// Gets the piece on a square after checking that the square exists, that
    /// it holds a piece, that the piece is of the expected kind and that it
    /// belongs to the side to move.
    pub fn get_validated_colored_piece(&self, from_square: Square, expected_piece: Piece) -> (res:
        Result<ColoredPiece, ChessError>)
        ensures
            res == self.spec_validated_colored_piece(from_square, expected_piece),
    {
        let col_piece = match self.get_colored_piece_from_square(from_square) {
            Ok(x) => x,
            Err(x) => return Err(x),
        };

        if let Err(x) = is_right_piece_type(col_piece, expected_piece) {
            return Err(x);
        }

        if let Err(x) = is_right_piece_side(col_piece, self.side_to_move) {
            return Err(x);
        }

        Ok(col_piece)
    }

    /// Gets the piece on a square after checking that the square exists and
    /// that it holds a piece.
    pub fn get_colored_piece_from_square(&self, from_square: Square) -> (res: Result<
        ColoredPiece,
        ChessError,
    >)
        ensures
            res == self.spec_colored_piece_from_square(from_square),
    {
        if let Err(x) = is_square_on_board(from_square) {
            return Err(x);
        }

        match self.board[from_square as usize] {
            Some(p) => Ok(p),
            None => Err(ChessError::NoPieceOnSquare { square: from_square }),
        }
    }
}

} // verus!
