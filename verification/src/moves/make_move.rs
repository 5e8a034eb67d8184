//! Moves and their application to a position.

use vstd::prelude::*;
use crate::errors::ChessError;
use crate::position::{Position, PositionView};
use crate::{on_board, ColoredPiece, Piece, Square};

verus! {

/// What kind of move a `Move` is, with the squares that the special moves
/// need beyond source and destination.
#[derive(Copy, Clone, Debug, PartialEq, Eq)]
pub enum MoveKind {
    Quiet,
    Capture,
    DoublePawnPush { passed_square: Square },
    EnPassant { capture_square: Square },
    Castling { rook_from: Square, rook_to: Square },
    Promotion { promotion_piece: Option<Piece> },
}

/// A move: where from, where to, the piece that moves as it stood when the
/// move was generated, and the kind of move.
#[derive(Copy, Clone, Debug, PartialEq, Eq)]
pub struct Move {
    pub from_square: Square,
    pub to_square: Square,
    pub colored_piece: ColoredPiece,
    pub move_kind: MoveKind,
}

/// The move of `mover` from `from` to `to` of the given kind.
pub open spec fn move_of(from: Square, to: int, mover: ColoredPiece, kind: MoveKind) -> Move {
    Move { from_square: from, to_square: to as u8, colored_piece: mover, move_kind: kind }
}

/// What a generator returned, with the list of moves as a sequence.
pub open spec fn moves_view(res: Result<Vec<Move>, ChessError>) -> Result<Seq<Move>, ChessError> {
    match res {
        Ok(moves) => Ok(moves@),
        Err(e) => Err(e),
    }
}

/// What the move applier returned, with the position as its view.
pub open spec fn position_view(res: Result<Position, ChessError>) -> Result<
    PositionView,
    ChessError,
> {
    match res {
        Ok(position) => Ok(position@),
        Err(e) => Err(e),
    }
}

impl PositionView {
    /// Why `mv` cannot be applied, if it cannot. The checks, in order: the
    /// source square is on the board, the destination is, the source holds a
    /// piece; then, by the kind of move, the square of the pawn taken en
    /// passant is on the board, or the rook's two squares are and the first
    /// holds a piece, or the promotion piece has been chosen.
    pub open spec fn move_error(self, mv: Move) -> Option<ChessError> {
        if !on_board(mv.from_square as int) {
            Some(ChessError::NotASquareOnBoard { square: mv.from_square })
        } else if !on_board(mv.to_square as int) {
            Some(ChessError::NotASquareOnBoard { square: mv.to_square })
        } else if self.board[mv.from_square as int] is None {
            Some(ChessError::NoPieceOnSquare { square: mv.from_square })
        } else {
            match mv.move_kind {
                MoveKind::Quiet | MoveKind::Capture | MoveKind::DoublePawnPush { .. } => None,
                MoveKind::EnPassant { capture_square } => if !on_board(capture_square as int) {
                    Some(ChessError::NotASquareOnBoard { square: capture_square })
                } else {
                    None
                },
                MoveKind::Castling { rook_from, rook_to } => if !on_board(rook_from as int) {
                    Some(ChessError::NotASquareOnBoard { square: rook_from })
                } else if !on_board(rook_to as int) {
                    Some(ChessError::NotASquareOnBoard { square: rook_to })
                } else if self.board[rook_from as int] is None {
                    Some(ChessError::NoPieceOnSquare { square: rook_from })
                } else {
                    None
                },
                MoveKind::Promotion { promotion_piece } => if promotion_piece is None {
                    Some(ChessError::PromotionPieceCantBeEmpty)
                } else {
                    None
                },
            }
        }
    }

    /// The piece that `mv` puts on its destination: the one on the source
    /// square, with its kind replaced where the move is a promotion.
    pub open spec fn placed_piece(self, mv: Move) -> ColoredPiece {
        let piece = self.board[mv.from_square as int]->0;
        match mv.move_kind {
            MoveKind::Promotion { promotion_piece: Some(kind) } => ColoredPiece {
                piece: kind,
                side: piece.side,
            },
            _ => piece,
        }
    }

    /// The board after `mv`, which can be applied: the source square is
    /// cleared and the destination takes the piece. Before that an en
    /// passant capture clears the square of the pawn it takes; after that a
    /// castling move clears the rook's square and puts the rook on its new
    /// one.
    pub open spec fn board_after(self, mv: Move) -> Seq<Option<ColoredPiece>> {
        let from = mv.from_square as int;
        let to = mv.to_square as int;
        let placed = Some(self.placed_piece(mv));
        match mv.move_kind {
            MoveKind::EnPassant { capture_square } => self.board.update(
                capture_square as int,
                None,
            ).update(from, None).update(to, placed),
            MoveKind::Castling { rook_from, rook_to } => self.board.update(from, None).update(
                to,
                placed,
            ).update(rook_from as int, None).update(rook_to as int, self.board[rook_from as int]),
            _ => self.board.update(from, None).update(to, placed),
        }
    }

    /// The kings' squares after `mv`, which can be applied: where the piece
    /// on the source square is a king, its side's entry becomes the
    /// destination.
    pub open spec fn king_squares_after(self, mv: Move) -> Seq<Square> {
        let piece = self.board[mv.from_square as int]->0;
        if piece.piece == Piece::King {
            self.king_squares.update(piece.side.spec_index(), mv.to_square)
        } else {
            self.king_squares
        }
    }

    /// The position after `mv` without the en passant bookkeeping: the board
    /// and the kings' squares follow the move, the side to move changes, the
    /// castling rights and the en passant square stay.
    pub open spec fn after_unvalidated(self, mv: Move) -> Result<PositionView, ChessError> {
        match self.move_error(mv) {
            Some(e) => Err(e),
            None => Ok(
                PositionView {
                    board: self.board_after(mv),
                    side_to_move: self.side_to_move.spec_opponent(),
                    castle: self.castle,
                    en_passant: self.en_passant,
                    king_squares: self.king_squares_after(mv),
                },
            ),
        }
    }

    /// The en passant square after `mv`: the square passed over by a double
    /// pawn push, none after any other move.
    pub open spec fn en_passant_after(mv: Move) -> Option<Square> {
        match mv.move_kind {
            MoveKind::DoublePawnPush { passed_square } => Some(passed_square),
            _ => None,
        }
    }

    /// The position after `mv`: as without the bookkeeping, and with the en
    /// passant square set anew.
    pub open spec fn after_validated(self, mv: Move) -> Result<PositionView, ChessError> {
        match self.after_unvalidated(mv) {
            Err(e) => Err(e),
            Ok(next) => Ok(
                PositionView {
                    board: next.board,
                    side_to_move: next.side_to_move,
                    castle: next.castle,
                    en_passant: Self::en_passant_after(mv),
                    king_squares: next.king_squares,
                },
            ),
        }
    }
}

impl Position {
    /// Applies `mv` and sets the en passant square: to the square passed
    /// over where `mv` is a double pawn push, to none otherwise. `self` is
    /// left as it is; the new position is returned.
    pub fn make_move_validated(&self, mv: &Move) -> (res: Result<Position, ChessError>)
        ensures
            position_view(res) == self@.after_validated(*mv),
    {
        let mut position = match self.make_move_unvalidated(mv) {
            Ok(x) => x,
            Err(x) => return Err(x),
        };

        if let MoveKind::DoublePawnPush { passed_square } = mv.move_kind {
            position.en_passant = Some(passed_square);
        } else {
            position.en_passant = None;
        }

        Ok(position)
    }

    /// Applies `mv` to the board: moves the piece on the source square to
    /// the destination, takes the pawn captured en passant, moves the rook of
    /// a castling move, replaces a promoted pawn, records where a king went,
    /// and hands the move to the other side. `self` is left as it is; the new
    /// position is returned.
    pub fn make_move_unvalidated(&self, mv: &Move) -> (res: Result<Position, ChessError>)
        ensures
            position_view(res) == self@.after_unvalidated(*mv),
    {
        if mv.from_square > 63 {
            return Err(ChessError::NotASquareOnBoard { square: mv.from_square });
        }
        if mv.to_square > 63 {
            return Err(ChessError::NotASquareOnBoard { square: mv.to_square });
        }

        let potential_piece = self.board[mv.from_square as usize];
        let mut piece = match potential_piece {
            Some(x) => x,
            None => return Err(ChessError::NoPieceOnSquare { square: mv.from_square }),
        };
        let moved_kind = piece.piece;
        let moved_side = piece.side;

        let mut board = self.board;

        match mv.move_kind {
            MoveKind::Quiet => {
                board[mv.from_square as usize] = None;
                board[mv.to_square as usize] = Some(piece);
            },
            MoveKind::Capture => {
                board[mv.from_square as usize] = None;
                board[mv.to_square as usize] = Some(piece);
            },
            MoveKind::EnPassant { capture_square } => {
                if capture_square > 63 {
                    return Err(ChessError::NotASquareOnBoard { square: capture_square });
                }
                board[capture_square as usize] = None;
                board[mv.from_square as usize] = None;
                board[mv.to_square as usize] = Some(piece);
            },
            MoveKind::DoublePawnPush { passed_square: _ } => {
                board[mv.from_square as usize] = None;
                board[mv.to_square as usize] = Some(piece);
            },
            MoveKind::Castling { rook_from, rook_to } => {
                if rook_from > 63 {
                    return Err(ChessError::NotASquareOnBoard { square: rook_from });
                }
                if rook_to > 63 {
                    return Err(ChessError::NotASquareOnBoard { square: rook_to });
                }
                let rook = match self.board[rook_from as usize] {
                    Some(x) => x,
                    None => return Err(ChessError::NoPieceOnSquare { square: rook_from }),
                };
                board[mv.from_square as usize] = None;
                board[mv.to_square as usize] = Some(piece);
                board[rook_from as usize] = None;
                board[rook_to as usize] = Some(rook);
            },
            MoveKind::Promotion { promotion_piece } => {
                match promotion_piece {
                    None => return Err(ChessError::PromotionPieceCantBeEmpty),
                    Some(kind) => {
                        piece.piece = kind;
                    },
                }
                board[mv.from_square as usize] = None;
                board[mv.to_square as usize] = Some(piece);
            },
        };

        let mut king_squares = self.king_squares;
        if moved_kind == Piece::King {
            king_squares[moved_side.index()] = mv.to_square;
        }

        let side_to_move = self.side_to_move.opponent();

        let next_position = Position {
            board,
            side_to_move,
            castle: self.castle,
            en_passant: self.en_passant,
            king_squares,
        };
        assert(next_position@.board =~= self@.board_after(*mv));
        assert(next_position@.king_squares =~= self@.king_squares_after(*mv));

        Ok(next_position)
    }
}

impl Position {
    /// Whether `mv` is a move of `mover` from `from_square` to a square of
    /// the board that can be applied to this position as soon as it names
    /// its promotion piece, where it is a promotion.
    pub open spec fn offers(&self, from_square: Square, mover: ColoredPiece, mv: Move) -> bool {
        &&& mv.from_square == from_square
        &&& mv.colored_piece == mover
        &&& on_board(mv.to_square as int)
        &&& self@.move_error(mv) == (if mv.move_kind is Promotion {
            Some(ChessError::PromotionPieceCantBeEmpty)
        } else {
            None::<ChessError>
        })
    }

    /// Whether every one of `moves` is offered in the sense of `offers`.
    pub open spec fn offers_all(
        &self,
        from_square: Square,
        mover: ColoredPiece,
        moves: Seq<Move>,
    ) -> bool {
        forall|i: int| 0 <= i < moves.len() ==> self.offers(from_square, mover, #[trigger] moves[i])
    }

    /// Where the moves of two lists are offered, so are those of the two
    /// lists joined.
    pub proof fn lemma_offers_joined(
        &self,
        from_square: Square,
        mover: ColoredPiece,
        a: Seq<Move>,
        b: Seq<Move>,
    )
        requires
            self.offers_all(from_square, mover, a),
            self.offers_all(from_square, mover, b),
        ensures
            self.offers_all(from_square, mover, a + b),
    {
        assert forall|i: int| 0 <= i < (a + b).len() implies self.offers(
            from_square,
            mover,
            #[trigger] (a + b)[i],
        ) by {
            if i < a.len() {
                assert((a + b)[i] == a[i]);
            } else {
                assert((a + b)[i] == b[i - a.len()]);
            }
        }
    }

    /// Where the moves of eight lists are offered, so are those of the
    /// eight lists joined.
    pub proof fn lemma_offers_eight(
        &self,
        from_square: Square,
        mover: ColoredPiece,
        a0: Seq<Move>,
        a1: Seq<Move>,
        a2: Seq<Move>,
        a3: Seq<Move>,
        a4: Seq<Move>,
        a5: Seq<Move>,
        a6: Seq<Move>,
        a7: Seq<Move>,
    )
        requires
            self.offers_all(from_square, mover, a0),
            self.offers_all(from_square, mover, a1),
            self.offers_all(from_square, mover, a2),
            self.offers_all(from_square, mover, a3),
            self.offers_all(from_square, mover, a4),
            self.offers_all(from_square, mover, a5),
            self.offers_all(from_square, mover, a6),
            self.offers_all(from_square, mover, a7),
        ensures
            self.offers_all(from_square, mover, a0 + a1 + a2 + a3 + a4 + a5 + a6 + a7),
    {
        self.lemma_offers_joined(from_square, mover, a0, a1);
        self.lemma_offers_joined(from_square, mover, a0 + a1, a2);
        self.lemma_offers_joined(from_square, mover, a0 + a1 + a2, a3);
        self.lemma_offers_joined(from_square, mover, a0 + a1 + a2 + a3, a4);
        self.lemma_offers_joined(from_square, mover, a0 + a1 + a2 + a3 + a4, a5);
        self.lemma_offers_joined(from_square, mover, a0 + a1 + a2 + a3 + a4 + a5, a6);
        self.lemma_offers_joined(from_square, mover, a0 + a1 + a2 + a3 + a4 + a5 + a6, a7);
    }
}

/// After a double pawn push the en passant square is the square that the
/// pawn passed over; after a move of any other kind there is none.
pub proof fn lemma_en_passant_follows_move(position: Position, mv: Move)
    requires
        position@.after_validated(mv) is Ok,
    ensures
        mv.move_kind matches MoveKind::DoublePawnPush { passed_square }
            ==> position@.after_validated(mv)->Ok_0.en_passant == Some(passed_square),
        !(mv.move_kind is DoublePawnPush) ==> position@.after_validated(mv)->Ok_0.en_passant
            is None,
{
}

/// An en passant capture empties the source square and the square of the
/// pawn that it takes, and puts the moving pawn on the destination. The
/// destination is taken to differ from both.
pub proof fn lemma_en_passant_clears_both(position: Position, mv: Move)
    requires
        mv.move_kind is EnPassant,
        position@.after_unvalidated(mv) is Ok,
        mv.to_square != mv.from_square,
        mv.to_square != mv.move_kind->capture_square,
    ensures
        position@.after_unvalidated(mv)->Ok_0.board[mv.move_kind->capture_square as int] is None,
        position@.after_unvalidated(mv)->Ok_0.board[mv.from_square as int] is None,
        position@.after_unvalidated(mv)->Ok_0.board[mv.to_square as int]
            == position@.board[mv.from_square as int],
        position@.board[mv.from_square as int] is Some,
{
}

/// A castling move empties the squares that king and rook leave and puts
/// each on its new square. The four squares are taken to differ from one
/// another.
pub proof fn lemma_castling_relocates_both(position: Position, mv: Move)
    requires
        mv.move_kind is Castling,
        position@.after_unvalidated(mv) is Ok,
        mv.from_square != mv.to_square,
        mv.from_square != mv.move_kind->rook_from,
        mv.from_square != mv.move_kind->rook_to,
        mv.to_square != mv.move_kind->rook_from,
        mv.to_square != mv.move_kind->rook_to,
        mv.move_kind->rook_from != mv.move_kind->rook_to,
    ensures
        position@.after_unvalidated(mv)->Ok_0.board[mv.from_square as int] is None,
        position@.after_unvalidated(mv)->Ok_0.board[mv.to_square as int]
            == position@.board[mv.from_square as int],
        position@.after_unvalidated(mv)->Ok_0.board[mv.move_kind->rook_from as int] is None,
        position@.after_unvalidated(mv)->Ok_0.board[mv.move_kind->rook_to as int]
            == position@.board[mv.move_kind->rook_from as int],
        position@.board[mv.from_square as int] is Some,
        position@.board[mv.move_kind->rook_from as int] is Some,
{
}

/// After a move of a king the square recorded for its side is the move's
/// destination, and the square recorded for the other side is as before;
/// after a move of another piece both are as before.
pub proof fn lemma_king_squares_follow_the_king(position: Position, mv: Move)
    requires
        position@.after_unvalidated(mv) is Ok,
    ensures
        ({
            let piece = position@.board[mv.from_square as int]->0;
            let after = position@.after_unvalidated(mv)->Ok_0.king_squares;
            &&& after.len() == 2
            &&& piece.piece == Piece::King ==> after[piece.side.spec_index()] == mv.to_square
                && after[piece.side.spec_opponent().spec_index()]
                == position@.king_squares[piece.side.spec_opponent().spec_index()]
            &&& piece.piece != Piece::King ==> after == position@.king_squares
        }),
{
}

/// Applying a move hands the move to the other side and leaves the castling
/// rights as they were, and changes no square but those that the move names.
pub proof fn lemma_move_touches_named_squares(position: Position, mv: Move, sq: int)
    requires
        position@.after_unvalidated(mv) is Ok,
        0 <= sq <= 63,
        sq != mv.from_square,
        sq != mv.to_square,
        mv.move_kind matches MoveKind::EnPassant { capture_square } ==> sq != capture_square,
        mv.move_kind matches MoveKind::Castling { rook_from, rook_to } ==> sq != rook_from && sq
            != rook_to,
    ensures
        position@.after_unvalidated(mv)->Ok_0.board[sq] == position@.board[sq],
        position@.after_unvalidated(mv)->Ok_0.side_to_move != position@.side_to_move,
        position@.after_unvalidated(mv)->Ok_0.castle == position@.castle,
{
}

} // verus!
