//! Pawn moves: pushes, captures, en passant and promotion.

use vstd::prelude::*;
use crate::errors::ChessError;
use crate::helper::{king_step, offset_square, spec_shifted};
use crate::moves::make_move::{move_of, moves_view, Move, MoveKind};
use crate::position::Position;
use crate::{on_board, rank, spec_rank, ColoredPiece, Piece, Side, Square};

verus! {

/// By how many ranks a pawn of `side` advances in one step.
pub open spec fn pawn_forward(side: Side) -> int {
    match side {
        Side::White => 1,
        Side::Black => -1,
    }
}

/// The rank on which the pawns of `side` start, and from which they may
/// advance two squares.
pub open spec fn pawn_start_rank(side: Side) -> int {
    match side {
        Side::White => 1,
        Side::Black => 6,
    }
}

/// The rank on which a pawn of `side` is promoted.
pub open spec fn promotion_rank(side: Side) -> int {
    match side {
        Side::White => 7,
        Side::Black => 0,
    }
}

/// The kind of a pawn move of `side` to square `to` that would be of kind
/// `plain` elsewhere: on the promotion rank it is a promotion whose piece is
/// still to be chosen.
pub open spec fn pawn_move_kind(side: Side, to: int, plain: MoveKind) -> MoveKind {
    if spec_rank(to) == promotion_rank(side) {
        MoveKind::Promotion { promotion_piece: None }
    } else {
        plain
    }
}

impl Position {
    /// The pushes of `pawn` from `from_square`: none where the square ahead
    /// is off the board or occupied; else the single step, and after it the
    /// double step where the pawn stands on its starting rank and the second
    /// square ahead is empty too. The double step records the square that it
    /// passes over.
    pub open spec fn pawn_push_moves(&self, from_square: Square, pawn: ColoredPiece) -> Seq<Move> {
        let forward = pawn_forward(pawn.side);
        match spec_shifted(from_square as int, 0, forward) {
            None => Seq::empty(),
            Some(one) => if self.board@[one as int] is Some {
                Seq::empty()
            } else {
                seq![
                    move_of(
                        from_square,
                        one as int,
                        pawn,
                        pawn_move_kind(pawn.side, one as int, MoveKind::Quiet),
                    ),
                ] + (if spec_rank(from_square as int) == pawn_start_rank(pawn.side) {
                    match spec_shifted(from_square as int, 0, 2 * forward) {
                        None => Seq::empty(),
                        Some(two) => if self.board@[two as int] is None {
                            seq![
                                move_of(
                                    from_square,
                                    two as int,
                                    pawn,
                                    MoveKind::DoublePawnPush { passed_square: one },
                                ),
                            ]
                        } else {
                            Seq::empty()
                        },
                    }
                } else {
                    Seq::empty()
                })
            },
        }
    }

    /// The captures of `pawn` from `from_square` on the square one rank
    /// ahead and `df` files aside: none where the board has no such square;
    /// else an en passant capture where that square is the one a pawn has
    /// just passed over, which takes the pawn one rank behind it, and beside
    /// it a capture where an opposing piece stands on that square.
    pub open spec fn pawn_capture_moves(
        &self,
        from_square: Square,
        pawn: ColoredPiece,
        df: int,
    ) -> Seq<Move> {
        let forward = pawn_forward(pawn.side);
        match spec_shifted(from_square as int, df, forward) {
            None => Seq::empty(),
            Some(to) => (if self.en_passant == Some(to) {
                seq![
                    move_of(
                        from_square,
                        to as int,
                        pawn,
                        MoveKind::EnPassant { capture_square: (to - 8 * forward) as u8 },
                    ),
                ]
            } else {
                Seq::empty()
            }) + (match self.board@[to as int] {
                Some(occupant) => if occupant.side != pawn.side {
                    seq![
                        move_of(
                            from_square,
                            to as int,
                            pawn,
                            pawn_move_kind(pawn.side, to as int, MoveKind::Capture),
                        ),
                    ]
                } else {
                    Seq::empty()
                },
                None => Seq::empty(),
            }),
        }
    }

    /// The moves of `pawn` from `from_square`: the pushes, then the captures
    /// towards the queen's wing and towards the king's wing for White, and
    /// the other way round for Black.
    pub open spec fn pawn_moves(&self, from_square: Square, pawn: ColoredPiece) -> Seq<Move> {
        let first = match pawn.side {
            Side::White => -1int,
            Side::Black => 1int,
        };
        self.pawn_push_moves(from_square, pawn) + self.pawn_capture_moves(from_square, pawn, first)
            + self.pawn_capture_moves(from_square, pawn, -first)
    }

    /// What `pawn_targets` returns: the error of the first check that fails
    /// on the source square, else the pawn's moves.
    pub open spec fn spec_pawn_targets(&self, from_square: Square) -> Result<
        Seq<Move>,
        ChessError,
    > {
        match self.spec_validated_colored_piece(from_square, Piece::Pawn) {
            Err(e) => Err(e),
            Ok(pawn) => Ok(self.pawn_moves(from_square, pawn)),
        }
    }

    /// The kind of a move of a pawn of `side` to `to_square`.
    fn kind_on(side: Side, to_square: Square, plain: MoveKind) -> (kind: MoveKind)
        requires
            on_board(to_square as int),
        ensures
            kind == pawn_move_kind(side, to_square as int, plain),
    {
        let last_rank: u8 = match side {
            Side::White => 7,
            Side::Black => 0,
        };
        if rank(to_square) == last_rank {
            MoveKind::Promotion { promotion_piece: None }
        } else {
            plain
        }
    }

    /// Appends the pushes of `pawn`.
    fn pushes(&self, from_square: Square, pawn: ColoredPiece, target_moves: &mut Vec<Move>)
        requires
            on_board(from_square as int),
        ensures
            final(target_moves)@ == old(target_moves)@ + self.pawn_push_moves(from_square, pawn),
    {
        let ghost start = target_moves@;
        let ghost pushes = self.pawn_push_moves(from_square, pawn);
        let (forward, start_rank): (i16, u8) = match pawn.side {
            Side::White => (8, 1),
            Side::Black => (-8, 6),
        };

        let forward_1_candidate = king_step(from_square, forward);

        if let Some(one) = forward_1_candidate {
            if self.board[one as usize].is_none() {
                let kind = Self::kind_on(pawn.side, one, MoveKind::Quiet);
                target_moves.push(
                    Move {
                        colored_piece: pawn,
                        from_square: from_square,
                        to_square: one,
                        move_kind: kind,
                    },
                );

                if rank(from_square) == start_rank {
                    let forward_2_candidate = offset_square(from_square, forward * 2);
                    assert(forward_2_candidate == spec_shifted(
                        from_square as int,
                        0,
                        2 * pawn_forward(pawn.side),
                    ));
                    if let Some(two) = forward_2_candidate {
                        if self.board[two as usize].is_none() {
                            target_moves.push(
                                Move {
                                    colored_piece: pawn,
                                    from_square: from_square,
                                    to_square: two,
                                    move_kind: MoveKind::DoublePawnPush { passed_square: one },
                                },
                            );
                        }
                    }
                }
            }
        }
        assert(target_moves@ =~= start + pushes);
    }

    /// Appends the captures of `pawn` on the square that `capture_offset`
    /// leads to.
    fn captures(
        &self,
        from_square: Square,
        pawn: ColoredPiece,
        capture_offset: i16,
        target_moves: &mut Vec<Move>,
    )
        requires
            on_board(from_square as int),
            match pawn.side {
                Side::White => capture_offset == 7 || capture_offset == 9,
                Side::Black => capture_offset == -7 || capture_offset == -9,
            },
        ensures
            final(target_moves)@ == old(target_moves)@ + self.pawn_capture_moves(
                from_square,
                pawn,
                if capture_offset == 7 || capture_offset == -9 {
                    -1int
                } else {
                    1int
                },
            ),
    {
        let ghost start = target_moves@;
        let ghost df = if capture_offset == 7 || capture_offset == -9 {
            -1int
        } else {
            1int
        };
        let ghost captures = self.pawn_capture_moves(from_square, pawn, df);

        if let Some(capture_candidate) = king_step(from_square, capture_offset) {
            if let Some(en_passant_square) = self.en_passant {
                if en_passant_square == capture_candidate {
                    let captured_square: Square = match pawn.side {
                        Side::White => en_passant_square - 8,
                        Side::Black => en_passant_square + 8,
                    };
                    target_moves.push(
                        Move {
                            colored_piece: pawn,
                            from_square: from_square,
                            to_square: capture_candidate,
                            move_kind: MoveKind::EnPassant { capture_square: captured_square },
                        },
                    );
                }
            }

            if let Some(piece) = self.board[capture_candidate as usize] {
                if piece.side != pawn.side {
                    let kind = Self::kind_on(pawn.side, capture_candidate, MoveKind::Capture);
                    target_moves.push(
                        Move {
                            colored_piece: pawn,
                            from_square: from_square,
                            to_square: capture_candidate,
                            move_kind: kind,
                        },
                    );
                }
            }
        }
        assert(target_moves@ =~= start + captures);
    }

    /// The moves of the pawn on `from_square`: the single and the double
    /// push, the captures, the en passant capture, each tagged as a promotion
    /// where the pawn reaches the last rank.
    pub fn pawn_targets(&self, from_square: Square) -> (res: Result<Vec<Move>, ChessError>)
        ensures
            moves_view(res) == self.spec_pawn_targets(from_square),
    {
        let mut target_moves: Vec<Move> = Vec::with_capacity(4);

        let pawn = match self.get_validated_colored_piece(from_square, Piece::Pawn) {
            Ok(x) => x,
            Err(x) => return Err(x),
        };

        self.pushes(from_square, pawn, &mut target_moves);
        match pawn.side {
            Side::White => {
                self.captures(from_square, pawn, 7, &mut target_moves);
                self.captures(from_square, pawn, 9, &mut target_moves);
            },
            Side::Black => {
                self.captures(from_square, pawn, -7, &mut target_moves);
                self.captures(from_square, pawn, -9, &mut target_moves);
            },
        }
        assert(target_moves@ =~= self.pawn_moves(from_square, pawn));

        Ok(target_moves)
    }
}

impl Position {
    /// The pawn's moves are offered.
    pub proof fn lemma_pawn_moves_offered(&self, from_square: Square, pawn: ColoredPiece)
        requires
            on_board(from_square as int),
            self.board@[from_square as int] == Some(pawn),
        ensures
            self.offers_all(from_square, pawn, self.pawn_moves(from_square, pawn)),
    {
        let first = match pawn.side {
            Side::White => -1int,
            Side::Black => 1int,
        };
        let pushes = self.pawn_push_moves(from_square, pawn);
        let left = self.pawn_capture_moves(from_square, pawn, first);
        let right = self.pawn_capture_moves(from_square, pawn, -first);
        assert(self.offers_all(from_square, pawn, pushes));
        assert(self.offers_all(from_square, pawn, left));
        assert(self.offers_all(from_square, pawn, right));
        self.lemma_offers_joined(from_square, pawn, pushes, left);
        self.lemma_offers_joined(from_square, pawn, pushes + left, right);
    }
}

/// A pawn on its starting rank with the two squares ahead of it empty has
/// exactly one quiet move and one double push: they are its first two moves,
/// the double push records the destination of the quiet move as the square
/// passed over, and every further move is of another kind.
pub proof fn lemma_pawn_on_start_rank(position: Position, from_square: Square, pawn: ColoredPiece)
    requires
        on_board(from_square as int),
        spec_rank(from_square as int) == pawn_start_rank(pawn.side),
        position.board@[from_square + 8 * pawn_forward(pawn.side)] is None,
        position.board@[from_square + 16 * pawn_forward(pawn.side)] is None,
    ensures
        ({
            let moves = position.pawn_moves(from_square, pawn);
            let one = from_square + 8 * pawn_forward(pawn.side);
            let two = from_square + 16 * pawn_forward(pawn.side);
            &&& moves.len() >= 2
            &&& moves[0] == move_of(from_square, one, pawn, MoveKind::Quiet)
            &&& moves[1] == move_of(
                from_square,
                two,
                pawn,
                MoveKind::DoublePawnPush { passed_square: one as u8 },
            )
            &&& forall|i: int|
                2 <= i < moves.len() ==> !(#[trigger] moves[i].move_kind is Quiet)
                    && !(moves[i].move_kind is DoublePawnPush)
        }),
{
    let pushes = position.pawn_push_moves(from_square, pawn);
    let first = match pawn.side {
        Side::White => -1int,
        Side::Black => 1int,
    };
    let left = position.pawn_capture_moves(from_square, pawn, first);
    let right = position.pawn_capture_moves(from_square, pawn, -first);
    let moves = position.pawn_moves(from_square, pawn);
    assert(pushes.len() == 2);
    assert(moves =~= pushes + (left + right));
    assert(forall|i: int| 0 <= i < left.len() ==> !(#[trigger] left[i].move_kind is Quiet) && !(
    left[i].move_kind is DoublePawnPush));
    assert(forall|i: int| 0 <= i < right.len() ==> !(#[trigger] right[i].move_kind is Quiet) && !(
    right[i].move_kind is DoublePawnPush));
    assert forall|i: int| 2 <= i < moves.len() implies !(#[trigger] moves[i].move_kind is Quiet)
        && !(moves[i].move_kind is DoublePawnPush) by {
        if i - 2 < left.len() {
            assert(moves[i] == left[i - 2]);
        } else {
            assert(moves[i] == right[i - 2 - left.len()]);
        }
    }
}

} // verus!
