//! Knight moves.

use vstd::prelude::*;
use crate::errors::ChessError;
use crate::helper::{
    is_knight_offset, knight_file_step, knight_jump, knight_rank_step, lemma_append_eight,
    spec_shifted,
};
use crate::moves::make_move::{move_of, moves_view, Move, MoveKind};
use crate::position::Position;
use crate::{on_board, ColoredPiece, Piece, Square};

verus! {

impl Position {
    /// The move of `mover` from `from_square` to the square `df` files and
    /// `dr` ranks away: none where the board has no such square or a piece of
    /// the mover's side stands on it; else a quiet move to an empty square and
    /// a capture of an opposing piece.
    pub open spec fn leap_move(
        &self,
        from_square: Square,
        mover: ColoredPiece,
        df: int,
        dr: int,
    ) -> Seq<Move> {
        match spec_shifted(from_square as int, df, dr) {
            None => Seq::empty(),
            Some(to) => match self.board@[to as int] {
                None => seq![move_of(from_square, to as int, mover, MoveKind::Quiet)],
                Some(occupant) => if occupant.side != mover.side {
                    seq![move_of(from_square, to as int, mover, MoveKind::Capture)]
                } else {
                    Seq::empty()
                },
            },
        }
    }

    /// The moves of `knight` from `from_square` by the eight jumps, from the
    /// two that go down two ranks to the two that go up two ranks.
    pub open spec fn knight_moves(&self, from_square: Square, knight: ColoredPiece) -> Seq<Move> {
        self.leap_move(from_square, knight, -1, -2) + self.leap_move(from_square, knight, 1, -2)
            + self.leap_move(from_square, knight, -2, -1) + self.leap_move(
            from_square,
            knight,
            2,
            -1,
        ) + self.leap_move(from_square, knight, -2, 1) + self.leap_move(from_square, knight, 2, 1)
            + self.leap_move(from_square, knight, -1, 2) + self.leap_move(
            from_square,
            knight,
            1,
            2,
        )
    }

    /// What `knight_targets` returns: the error of the first check that
    /// fails on the source square, else the moves by the eight jumps.
    pub open spec fn spec_knight_targets(&self, from_square: Square) -> Result<
        Seq<Move>,
        ChessError,
    > {
        match self.spec_validated_colored_piece(from_square, Piece::Knight) {
            Err(e) => Err(e),
            Ok(knight) => Ok(self.knight_moves(from_square, knight)),
        }
    }

    /// Appends the move of `knight` by the jump `offset`, if there is one.
    fn jump_by(
        &self,
        from_square: Square,
        knight: ColoredPiece,
        offset: i16,
        target_moves: &mut Vec<Move>,
    )
        requires
            on_board(from_square as int),
            is_knight_offset(offset as int),
        ensures
            final(target_moves)@ == old(target_moves)@ + self.leap_move(
                from_square,
                knight,
                knight_file_step(offset as int),
                knight_rank_step(offset as int),
            ),
    {
        let ghost start = target_moves@;
        let ghost jump = self.leap_move(
            from_square,
            knight,
            knight_file_step(offset as int),
            knight_rank_step(offset as int),
        );
        if let Some(candidate_square) = knight_jump(from_square, offset) {
            match self.board[candidate_square as usize] {
                None => {
                    target_moves.push(
                        Move {
                            colored_piece: knight,
                            from_square: from_square,
                            to_square: candidate_square,
                            move_kind: MoveKind::Quiet,
                        },
                    );
                },
                Some(colored_piece) => {
                    if colored_piece.side != knight.side {
                        target_moves.push(
                            Move {
                                colored_piece: knight,
                                from_square: from_square,
                                to_square: candidate_square,
                                move_kind: MoveKind::Capture,
                            },
                        );
                    }
                },
            }
        }
        assert(target_moves@ =~= start + jump);
    }

    /// The moves of the knight on `from_square`.
    pub fn knight_targets(&self, from_square: Square) -> (res: Result<Vec<Move>, ChessError>)
        ensures
            moves_view(res) == self.spec_knight_targets(from_square),
    {
        let mut target_moves: Vec<Move> = Vec::with_capacity(8);

        let knight = match self.get_validated_colored_piece(from_square, Piece::Knight) {
            Ok(x) => x,
            Err(x) => return Err(x),
        };

        let ghost a0 = self.leap_move(from_square, knight, -1, -2);
        let ghost a1 = self.leap_move(from_square, knight, 1, -2);
        let ghost a2 = self.leap_move(from_square, knight, -2, -1);
        let ghost a3 = self.leap_move(from_square, knight, 2, -1);
        let ghost a4 = self.leap_move(from_square, knight, -2, 1);
        let ghost a5 = self.leap_move(from_square, knight, 2, 1);
        let ghost a6 = self.leap_move(from_square, knight, -1, 2);
        let ghost a7 = self.leap_move(from_square, knight, 1, 2);
        let ghost start = target_moves@;
        self.jump_by(from_square, knight, -17, &mut target_moves);
        assert(target_moves@ == start + a0);
        self.jump_by(from_square, knight, -15, &mut target_moves);
        assert(target_moves@ == start + a0 + a1);
        self.jump_by(from_square, knight, -10, &mut target_moves);
        assert(target_moves@ == start + a0 + a1 + a2);
        self.jump_by(from_square, knight, -6, &mut target_moves);
        assert(target_moves@ == start + a0 + a1 + a2 + a3);
        self.jump_by(from_square, knight, 6, &mut target_moves);
        assert(target_moves@ == start + a0 + a1 + a2 + a3 + a4);
        self.jump_by(from_square, knight, 10, &mut target_moves);
        assert(target_moves@ == start + a0 + a1 + a2 + a3 + a4 + a5);
        self.jump_by(from_square, knight, 15, &mut target_moves);
        assert(target_moves@ == start + a0 + a1 + a2 + a3 + a4 + a5 + a6);
        self.jump_by(from_square, knight, 17, &mut target_moves);
        proof {
            lemma_append_eight(start, a0, a1, a2, a3, a4, a5, a6, a7);
            assert(start + self.knight_moves(from_square, knight) =~= self.knight_moves(
                from_square,
                knight,
            ));
        }

        Ok(target_moves)
    }
}

impl Position {
    /// A move to a square some files and ranks away is offered.
    pub proof fn lemma_leap_offered(
        &self,
        from_square: Square,
        mover: ColoredPiece,
        df: int,
        dr: int,
    )
        requires
            on_board(from_square as int),
            self.board@[from_square as int] == Some(mover),
        ensures
            self.offers_all(from_square, mover, self.leap_move(from_square, mover, df, dr)),
    {
    }

    /// The knight's moves are offered.
    pub proof fn lemma_knight_moves_offered(&self, from_square: Square, knight: ColoredPiece)
        requires
            on_board(from_square as int),
            self.board@[from_square as int] == Some(knight),
        ensures
            self.offers_all(from_square, knight, self.knight_moves(from_square, knight)),
    {
        self.lemma_leap_offered(from_square, knight, -1, -2);
        self.lemma_leap_offered(from_square, knight, 1, -2);
        self.lemma_leap_offered(from_square, knight, -2, -1);
        self.lemma_leap_offered(from_square, knight, 2, -1);
        self.lemma_leap_offered(from_square, knight, -2, 1);
        self.lemma_leap_offered(from_square, knight, 2, 1);
        self.lemma_leap_offered(from_square, knight, -1, 2);
        self.lemma_leap_offered(from_square, knight, 1, 2);
        self.lemma_offers_eight(
            from_square,
            knight,
            self.leap_move(from_square, knight, -1, -2),
            self.leap_move(from_square, knight, 1, -2),
            self.leap_move(from_square, knight, -2, -1),
            self.leap_move(from_square, knight, 2, -1),
            self.leap_move(from_square, knight, -2, 1),
            self.leap_move(from_square, knight, 2, 1),
            self.leap_move(from_square, knight, -1, 2),
            self.leap_move(from_square, knight, 1, 2),
        );
    }
}

} // verus!
