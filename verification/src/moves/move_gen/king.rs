//! King moves, castling included.

use vstd::prelude::*;
use crate::errors::ChessError;
use crate::helper::{king_step, lemma_append_eight, lemma_concat_contains, spec_shifted};
use crate::moves::make_move::{move_of, moves_view, Move, MoveKind};
use crate::moves::move_gen::slider::{file_step, is_ray_direction, rank_step};
use crate::position::Position;
use crate::{on_board, CastleRigth, ColoredPiece, Piece, Side, Square};

verus! {

/// The move by which the king of `king.side` castles towards the king's
/// rook: two squares towards it, the rook coming to the square the king
/// passed over.
pub open spec fn king_side_castling(king: ColoredPiece) -> Move {
    let home = king.side.spec_king_home();
    Move {
        from_square: home,
        to_square: (home + 2) as u8,
        colored_piece: king,
        move_kind: MoveKind::Castling { rook_from: (home + 3) as u8, rook_to: (home + 1) as u8 },
    }
}

/// The move by which the king of `king.side` castles towards the queen's
/// rook.
pub open spec fn queen_side_castling(king: ColoredPiece) -> Move {
    let home = king.side.spec_king_home();
    Move {
        from_square: home,
        to_square: (home - 2) as u8,
        colored_piece: king,
        move_kind: MoveKind::Castling { rook_from: (home - 4) as u8, rook_to: (home - 1) as u8 },
    }
}

impl Position {
    /// Whether `side` holds the castling right `right`.
    pub open spec fn has_right(&self, right: CastleRigth) -> bool {
        self.castle@[right.spec_index()]
    }

    /// Whether the king of `side`, standing on its home square, may castle
    /// towards the king's rook: the right is held, the two squares between
    /// king and rook are empty, the rook of that side stands in its corner,
    /// the other side does not attack the king, nor the square that the king
    /// passes over, nor the square that it lands on.
    pub open spec fn may_castle_king_side(&self, side: Side) -> bool {
        let home = side.spec_king_home();
        &&& self.has_right(CastleRigth::spec_king_side(side))
        &&& self.board@[home + 1] is None
        &&& self.board@[home + 2] is None
        &&& self.holds(home + 3, Piece::Rook, side)
        &&& !self.is_attacked(home, side.spec_opponent())
        &&& !self.is_attacked((home + 1) as u8, side.spec_opponent())
        &&& !self.is_attacked((home + 2) as u8, side.spec_opponent())
    }

    /// Whether the king of `side`, standing on its home square, may castle
    /// towards the queen's rook: the right is held, the three squares
    /// between king and rook are empty, the rook of that side stands in its
    /// corner, the other side does not attack the king, nor the square that
    /// the king passes over, nor the square that it lands on.
    pub open spec fn may_castle_queen_side(&self, side: Side) -> bool {
        let home = side.spec_king_home();
        &&& self.has_right(CastleRigth::spec_queen_side(side))
        &&& self.board@[home - 1] is None
        &&& self.board@[home - 2] is None
        &&& self.board@[home - 3] is None
        &&& self.holds(home - 4, Piece::Rook, side)
        &&& !self.is_attacked(home, side.spec_opponent())
        &&& !self.is_attacked((home - 1) as u8, side.spec_opponent())
        &&& !self.is_attacked((home - 2) as u8, side.spec_opponent())
    }

    /// The castling moves of `king` from `from_square`: none unless that is
    /// the king's home square; else the one towards the king's rook, if
    /// allowed, then the one towards the queen's rook, if allowed.
    pub open spec fn castling_moves(&self, from_square: Square, king: ColoredPiece) -> Seq<Move> {
        if from_square == king.side.spec_king_home() {
            (if self.may_castle_king_side(king.side) {
                seq![king_side_castling(king)]
            } else {
                Seq::empty()
            }) + (if self.may_castle_queen_side(king.side) {
                seq![queen_side_castling(king)]
            } else {
                Seq::empty()
            })
        } else {
            Seq::empty()
        }
    }

    /// The move of `king` from `from_square` to the neighbour `df` files and
    /// `dr` ranks away: none where the board ends, where the other side
    /// attacks that square or where a piece of the king's side stands on it;
    /// else a quiet move to an empty square and a capture of an opposing
    /// piece.
    pub open spec fn king_step_move(
        &self,
        from_square: Square,
        king: ColoredPiece,
        df: int,
        dr: int,
    ) -> Seq<Move> {
        match spec_shifted(from_square as int, df, dr) {
            None => Seq::empty(),
            Some(to) => if self.is_attacked(to, king.side.spec_opponent()) {
                Seq::empty()
            } else {
                match self.board@[to as int] {
                    None => seq![move_of(from_square, to as int, king, MoveKind::Quiet)],
                    Some(occupant) => if occupant.side != king.side {
                        seq![move_of(from_square, to as int, king, MoveKind::Capture)]
                    } else {
                        Seq::empty()
                    },
                }
            },
        }
    }

    /// The moves of `king` from `from_square` to its eight neighbours, rank
    /// by rank from the one below, each rank from left to right.
    pub open spec fn king_step_moves(&self, from_square: Square, king: ColoredPiece) -> Seq<Move> {
        self.king_step_move(from_square, king, -1, -1) + self.king_step_move(
            from_square,
            king,
            0,
            -1,
        ) + self.king_step_move(from_square, king, 1, -1) + self.king_step_move(
            from_square,
            king,
            -1,
            0,
        ) + self.king_step_move(from_square, king, 1, 0) + self.king_step_move(
            from_square,
            king,
            -1,
            1,
        ) + self.king_step_move(from_square, king, 0, 1) + self.king_step_move(
            from_square,
            king,
            1,
            1,
        )
    }

    /// What `king_targets` returns: the error of the first check that fails
    /// on the source square, else the castling moves followed by the moves
    /// to the neighbouring squares.
    pub open spec fn spec_king_targets(&self, from_square: Square) -> Result<
        Seq<Move>,
        ChessError,
    > {
        match self.spec_validated_colored_piece(from_square, Piece::King) {
            Err(e) => Err(e),
            Ok(king) => Ok(
                self.castling_moves(from_square, king) + self.king_step_moves(from_square, king),
            ),
        }
    }

    /// Whether the king of `side` may castle towards the king's rook.
    fn can_castle_king_side(&self, side: Side) -> (res: bool)
        ensures
            res == self.may_castle_king_side(side),
    {
        let king_from: Square = side.king_home();
        let k_allowed = self.castle[CastleRigth::king_side(side).index()];
        let k_clear = self.board[(king_from + 1) as usize].is_none() && self.board[(king_from
            + 2) as usize].is_none();
        let k_rook_ok = match self.board[(king_from + 3) as usize] {
            Some(rook) => rook.piece == Piece::Rook && rook.side == side,
            None => false,
        };
        if !(k_allowed && k_clear && k_rook_ok) {
            return false;
        }
        let attacker = side.opponent();
        let king_in_check = self.attacked(king_from, attacker);
        let k_safe = !self.attacked(king_from + 1, attacker) && !self.attacked(
            king_from + 2,
            attacker,
        );
        !king_in_check && k_safe
    }

    /// Whether the king of `side` may castle towards the queen's rook.
    fn can_castle_queen_side(&self, side: Side) -> (res: bool)
        ensures
            res == self.may_castle_queen_side(side),
    {
        let king_from: Square = side.king_home();
        let q_allowed = self.castle[CastleRigth::queen_side(side).index()];
        let q_clear = self.board[(king_from - 1) as usize].is_none() && self.board[(king_from
            - 2) as usize].is_none() && self.board[(king_from - 3) as usize].is_none();
        let q_rook_ok = match self.board[(king_from - 4) as usize] {
            Some(rook) => rook.piece == Piece::Rook && rook.side == side,
            None => false,
        };
        if !(q_allowed && q_clear && q_rook_ok) {
            return false;
        }
        let attacker = side.opponent();
        let king_in_check = self.attacked(king_from, attacker);
        let q_safe = !self.attacked(king_from - 1, attacker) && !self.attacked(
            king_from - 2,
            attacker,
        );
        !king_in_check && q_safe
    }

    /// Appends the castling moves of `king`, which stands on its home square.
    fn castling(&self, king: ColoredPiece, target_moves: &mut Vec<Move>)
        ensures
            final(target_moves)@ == old(target_moves)@ + self.castling_moves(
                king.side.spec_king_home(),
                king,
            ),
    {
        let ghost start = target_moves@;
        let king_from: Square = king.side.king_home();

        if self.can_castle_king_side(king.side) {
            target_moves.push(
                Move {
                    colored_piece: king,
                    from_square: king_from,
                    to_square: king_from + 2,
                    move_kind: MoveKind::Castling {
                        rook_from: king_from + 3,
                        rook_to: king_from + 1,
                    },
                },
            );
        }
        let ghost first = if self.may_castle_king_side(king.side) {
            seq![king_side_castling(king)]
        } else {
            Seq::empty()
        };
        assert(target_moves@ =~= start + first);

        if self.can_castle_queen_side(king.side) {
            target_moves.push(
                Move {
                    colored_piece: king,
                    from_square: king_from,
                    to_square: king_from - 2,
                    move_kind: MoveKind::Castling {
                        rook_from: king_from - 4,
                        rook_to: king_from - 1,
                    },
                },
            );
        }
        let ghost second = if self.may_castle_queen_side(king.side) {
            seq![queen_side_castling(king)]
        } else {
            Seq::empty()
        };
        assert(target_moves@ =~= start + (first + second));
    }

    /// Appends the move of `king` to its neighbour in `direction`, if it has
    /// one.
    fn step_towards(
        &self,
        from_square: Square,
        king: ColoredPiece,
        direction: i16,
        target_moves: &mut Vec<Move>,
    )
        requires
            on_board(from_square as int),
            is_ray_direction(direction as int),
        ensures
            final(target_moves)@ == old(target_moves)@ + self.king_step_move(
                from_square,
                king,
                file_step(direction as int),
                rank_step(direction as int),
            ),
    {
        let ghost start = target_moves@;
        let ghost step = self.king_step_move(
            from_square,
            king,
            file_step(direction as int),
            rank_step(direction as int),
        );
        if let Some(candidate_square) = king_step(from_square, direction) {
            if !self.attacked(candidate_square, king.side.opponent()) {
                match self.board[candidate_square as usize] {
                    None => {
                        target_moves.push(
                            Move {
                                colored_piece: king,
                                from_square: from_square,
                                to_square: candidate_square,
                                move_kind: MoveKind::Quiet,
                            },
                        );
                    },
                    Some(colored_piece) => {
                        if colored_piece.side != king.side {
                            target_moves.push(
                                Move {
                                    colored_piece: king,
                                    from_square: from_square,
                                    to_square: candidate_square,
                                    move_kind: MoveKind::Capture,
                                },
                            );
                        }
                    },
                }
            }
        }
        assert(target_moves@ =~= start + step);
    }

    /// Appends the moves of `king` to its eight neighbours.
    fn steps(&self, from_square: Square, king: ColoredPiece, target_moves: &mut Vec<Move>)
        requires
            on_board(from_square as int),
        ensures
            final(target_moves)@ == old(target_moves)@ + self.king_step_moves(from_square, king),
    {
        let ghost start = target_moves@;
        let ghost a0 = self.king_step_move(from_square, king, -1, -1);
        let ghost a1 = self.king_step_move(from_square, king, 0, -1);
        let ghost a2 = self.king_step_move(from_square, king, 1, -1);
        let ghost a3 = self.king_step_move(from_square, king, -1, 0);
        let ghost a4 = self.king_step_move(from_square, king, 1, 0);
        let ghost a5 = self.king_step_move(from_square, king, -1, 1);
        let ghost a6 = self.king_step_move(from_square, king, 0, 1);
        let ghost a7 = self.king_step_move(from_square, king, 1, 1);
        self.step_towards(from_square, king, -9, target_moves);
        assert(target_moves@ == start + a0);
        self.step_towards(from_square, king, -8, target_moves);
        assert(target_moves@ == start + a0 + a1);
        self.step_towards(from_square, king, -7, target_moves);
        assert(target_moves@ == start + a0 + a1 + a2);
        self.step_towards(from_square, king, -1, target_moves);
        assert(target_moves@ == start + a0 + a1 + a2 + a3);
        self.step_towards(from_square, king, 1, target_moves);
        assert(target_moves@ == start + a0 + a1 + a2 + a3 + a4);
        self.step_towards(from_square, king, 7, target_moves);
        assert(target_moves@ == start + a0 + a1 + a2 + a3 + a4 + a5);
        self.step_towards(from_square, king, 8, target_moves);
        assert(target_moves@ == start + a0 + a1 + a2 + a3 + a4 + a5 + a6);
        self.step_towards(from_square, king, 9, target_moves);
        proof {
            lemma_append_eight(start, a0, a1, a2, a3, a4, a5, a6, a7);
        }
    }

    /// The moves of the king on `from_square`: castling where it is allowed,
    /// and the steps to the neighbouring squares that no opposing piece
    /// attacks.
    pub fn king_targets(&self, from_square: Square) -> (res: Result<Vec<Move>, ChessError>)
        ensures
            moves_view(res) == self.spec_king_targets(from_square),
    {
        let mut target_moves: Vec<Move> = Vec::with_capacity(8);

        let king = match self.get_validated_colored_piece(from_square, Piece::King) {
            Ok(x) => x,
            Err(x) => return Err(x),
        };

        if from_square == king.side.king_home() {
            self.castling(king, &mut target_moves);
        }
        assert(target_moves@ =~= self.castling_moves(from_square, king));

        self.steps(from_square, king, &mut target_moves);

        Ok(target_moves)
    }
}

impl Position {
    /// Whether every one of `moves` is a quiet move or a capture.
    pub open spec fn are_plain(moves: Seq<Move>) -> bool {
        forall|i: int|
            0 <= i < moves.len() ==> {
                let kind = (#[trigger] moves[i]).move_kind;
                kind is Quiet || kind is Capture
            }
    }

    /// Where the moves of two lists are quiet moves or captures, so are
    /// those of the two lists joined.
    pub proof fn lemma_plain_joined(a: Seq<Move>, b: Seq<Move>)
        requires
            Self::are_plain(a),
            Self::are_plain(b),
        ensures
            Self::are_plain(a + b),
    {
        assert forall|i: int| 0 <= i < (a + b).len() implies {
            let kind = (#[trigger] (a + b)[i]).move_kind;
            kind is Quiet || kind is Capture
        } by {
            if i < a.len() {
                assert((a + b)[i] == a[i]);
            } else {
                assert((a + b)[i] == b[i - a.len()]);
            }
        }
    }

    /// A move of the king to a neighbouring square is a quiet move or a
    /// capture.
    pub proof fn lemma_step_is_plain(
        &self,
        from_square: Square,
        king: ColoredPiece,
        df: int,
        dr: int,
    )
        ensures
            Self::are_plain(self.king_step_move(from_square, king, df, dr)),
    {
    }

    /// Every move of the king to a neighbouring square is a quiet move or a
    /// capture.
    pub proof fn lemma_steps_are_plain(&self, from_square: Square, king: ColoredPiece)
        ensures
            Self::are_plain(self.king_step_moves(from_square, king)),
    {
        let a0 = self.king_step_move(from_square, king, -1, -1);
        let a1 = self.king_step_move(from_square, king, 0, -1);
        let a2 = self.king_step_move(from_square, king, 1, -1);
        let a3 = self.king_step_move(from_square, king, -1, 0);
        let a4 = self.king_step_move(from_square, king, 1, 0);
        let a5 = self.king_step_move(from_square, king, -1, 1);
        let a6 = self.king_step_move(from_square, king, 0, 1);
        let a7 = self.king_step_move(from_square, king, 1, 1);
        self.lemma_step_is_plain(from_square, king, -1, -1);
        self.lemma_step_is_plain(from_square, king, 0, -1);
        self.lemma_step_is_plain(from_square, king, 1, -1);
        self.lemma_step_is_plain(from_square, king, -1, 0);
        self.lemma_step_is_plain(from_square, king, 1, 0);
        self.lemma_step_is_plain(from_square, king, -1, 1);
        self.lemma_step_is_plain(from_square, king, 0, 1);
        self.lemma_step_is_plain(from_square, king, 1, 1);
        Self::lemma_plain_joined(a0, a1);
        Self::lemma_plain_joined(a0 + a1, a2);
        Self::lemma_plain_joined(a0 + a1 + a2, a3);
        Self::lemma_plain_joined(a0 + a1 + a2 + a3, a4);
        Self::lemma_plain_joined(a0 + a1 + a2 + a3 + a4, a5);
        Self::lemma_plain_joined(a0 + a1 + a2 + a3 + a4 + a5, a6);
        Self::lemma_plain_joined(a0 + a1 + a2 + a3 + a4 + a5 + a6, a7);
    }

    /// The castling moves hold each of the two castling moves exactly when
    /// the king stands on its home square and that castling is allowed.
    pub proof fn lemma_castling_holds(&self, from_square: Square, king: ColoredPiece)
        ensures
            self.castling_moves(from_square, king).contains(king_side_castling(king)) <==> (
            from_square == king.side.spec_king_home() && self.may_castle_king_side(king.side)),
            self.castling_moves(from_square, king).contains(queen_side_castling(king)) <==> (
            from_square == king.side.spec_king_home() && self.may_castle_queen_side(king.side)),
    {
        let k = self.may_castle_king_side(king.side);
        let q = self.may_castle_queen_side(king.side);
        let first = if k {
            seq![king_side_castling(king)]
        } else {
            Seq::empty()
        };
        let second = if q {
            seq![queen_side_castling(king)]
        } else {
            Seq::empty()
        };
        assert(king_side_castling(king).to_square != queen_side_castling(king).to_square);
        lemma_concat_contains(first, second, king_side_castling(king));
        lemma_concat_contains(first, second, queen_side_castling(king));
        if k {
            assert(first[0] == king_side_castling(king));
        }
        if q {
            assert(second[0] == queen_side_castling(king));
        }
    }

    /// A move of the king to a neighbouring square is offered.
    pub proof fn lemma_king_step_offered(
        &self,
        from_square: Square,
        king: ColoredPiece,
        df: int,
        dr: int,
    )
        requires
            on_board(from_square as int),
            self.board@[from_square as int] == Some(king),
        ensures
            self.offers_all(from_square, king, self.king_step_move(from_square, king, df, dr)),
    {
    }

    /// The castling moves are offered.
    pub proof fn lemma_castling_offered(&self, from_square: Square, king: ColoredPiece)
        requires
            on_board(from_square as int),
            self.board@[from_square as int] == Some(king),
        ensures
            self.offers_all(from_square, king, self.castling_moves(from_square, king)),
    {
        let first = if self.may_castle_king_side(king.side) {
            seq![king_side_castling(king)]
        } else {
            Seq::empty()
        };
        let second = if self.may_castle_queen_side(king.side) {
            seq![queen_side_castling(king)]
        } else {
            Seq::empty()
        };
        if from_square == king.side.spec_king_home() {
            assert(self.offers_all(from_square, king, first));
            assert(self.offers_all(from_square, king, second));
            self.lemma_offers_joined(from_square, king, first, second);
        }
    }

    /// The king's moves are offered.
    pub proof fn lemma_king_moves_offered(&self, from_square: Square, king: ColoredPiece)
        requires
            on_board(from_square as int),
            self.board@[from_square as int] == Some(king),
        ensures
            self.offers_all(
                from_square,
                king,
                self.castling_moves(from_square, king) + self.king_step_moves(from_square, king),
            ),
    {
        self.lemma_king_step_offered(from_square, king, -1, -1);
        self.lemma_king_step_offered(from_square, king, 0, -1);
        self.lemma_king_step_offered(from_square, king, 1, -1);
        self.lemma_king_step_offered(from_square, king, -1, 0);
        self.lemma_king_step_offered(from_square, king, 1, 0);
        self.lemma_king_step_offered(from_square, king, -1, 1);
        self.lemma_king_step_offered(from_square, king, 0, 1);
        self.lemma_king_step_offered(from_square, king, 1, 1);
        self.lemma_castling_offered(from_square, king);
        self.lemma_offers_eight(
            from_square,
            king,
            self.king_step_move(from_square, king, -1, -1),
            self.king_step_move(from_square, king, 0, -1),
            self.king_step_move(from_square, king, 1, -1),
            self.king_step_move(from_square, king, -1, 0),
            self.king_step_move(from_square, king, 1, 0),
            self.king_step_move(from_square, king, -1, 1),
            self.king_step_move(from_square, king, 0, 1),
            self.king_step_move(from_square, king, 1, 1),
        );
        self.lemma_offers_joined(
            from_square,
            king,
            self.castling_moves(from_square, king),
            self.king_step_moves(from_square, king),
        );
    }
}

/// The king's moves hold the castling move towards the king's rook exactly
/// when the king stands on its home square and that castling is allowed:
/// the right is held, the squares between are empty, the rook is in its
/// corner, and the other side attacks neither the king nor a square that it
/// crosses or reaches. Where one of these fails, the move is not among them.
pub proof fn lemma_king_side_castling_generated(position: Position, from_square: Square)
    requires
        position.spec_king_targets(from_square) is Ok,
    ensures
        ({
            let king = position.board@[from_square as int]->0;
            position.spec_king_targets(from_square)->Ok_0.contains(king_side_castling(king)) <==> (
            from_square == king.side.spec_king_home() && position.may_castle_king_side(king.side))
        }),
{
    let king = position.board@[from_square as int]->0;
    let castling = position.castling_moves(from_square, king);
    let steps = position.king_step_moves(from_square, king);
    let wanted = king_side_castling(king);
    assert(position.spec_king_targets(from_square)->Ok_0 == castling + steps);
    lemma_concat_contains(castling, steps, wanted);
    position.lemma_castling_holds(from_square, king);
    assert(!steps.contains(wanted)) by {
        position.lemma_steps_are_plain(from_square, king);
        if steps.contains(wanted) {
            let i = choose|i: int| 0 <= i < steps.len() && steps[i] == wanted;
            assert(steps[i].move_kind is Castling);
        }
    }
}

/// The king's moves hold the castling move towards the queen's rook exactly
/// when the king stands on its home square and that castling is allowed.
pub proof fn lemma_queen_side_castling_generated(position: Position, from_square: Square)
    requires
        position.spec_king_targets(from_square) is Ok,
    ensures
        ({
            let king = position.board@[from_square as int]->0;
            position.spec_king_targets(from_square)->Ok_0.contains(queen_side_castling(king))
                <==> (from_square == king.side.spec_king_home() && position.may_castle_queen_side(
                king.side,
            ))
        }),
{
    let king = position.board@[from_square as int]->0;
    let castling = position.castling_moves(from_square, king);
    let steps = position.king_step_moves(from_square, king);
    let wanted = queen_side_castling(king);
    assert(position.spec_king_targets(from_square)->Ok_0 == castling + steps);
    lemma_concat_contains(castling, steps, wanted);
    position.lemma_castling_holds(from_square, king);
    assert(!steps.contains(wanted)) by {
        position.lemma_steps_are_plain(from_square, king);
        if steps.contains(wanted) {
            let i = choose|i: int| 0 <= i < steps.len() && steps[i] == wanted;
            assert(steps[i].move_kind is Castling);
        }
    }
}

} // verus!
