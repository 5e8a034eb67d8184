//! The attack detector: which pieces of a side attack a square.

use vstd::prelude::*;
use crate::errors::ChessError;
use crate::helper::{
    king_step, knight_jump, lemma_append_eight, offset_square, spec_offset_square, spec_shifted,
};
use crate::helper::lemma_concat_contains;
use crate::moves::move_gen::slider::{file_step, is_ray_direction, lies_towards, rank_step};
use crate::position::Position;
use crate::{
    in_grid, lemma_coordinates_round_trip, lemma_square_splits, on_board, spec_file, spec_rank,
    spec_square, Piece, Side, Square,
};

verus! {

/// Whether a piece of kind `kind` moves along the ray that changes the file
/// by `df` and the rank by `dr` per step: the queen along all of them, the
/// rook along a file or a rank, the bishop along a diagonal.
pub open spec fn slides_along(kind: Piece, df: int, dr: int) -> bool {
    kind == Piece::Queen || (if df == 0 || dr == 0 {
        kind == Piece::Rook
    } else {
        kind == Piece::Bishop
    })
}

/// Whether square `a` is a neighbour of square `t`: another square, at most
/// one file and one rank away.
pub open spec fn one_step_away(t: int, a: int) -> bool {
    let files = spec_file(a) - spec_file(t);
    let ranks = spec_rank(a) - spec_rank(t);
    a != t && -1 <= files <= 1 && -1 <= ranks <= 1
}

/// Whether square `a` is a knight's jump away from square `t`: one file and
/// two ranks, or two files and one rank.
pub open spec fn one_jump_away(t: int, a: int) -> bool {
    let files = spec_file(a) - spec_file(t);
    let ranks = spec_rank(a) - spec_rank(t);
    ((files == 1 || files == -1) && (ranks == 2 || ranks == -2)) || ((files == 2 || files == -2)
        && (ranks == 1 || ranks == -1))
}

/// Whether square `a` is one of the two on which a pawn of `side` is looked
/// for as an attacker of square `t`: 7 or 9 more than `t` for White, 7 or 9
/// less for Black.
pub open spec fn on_pawn_row(t: int, a: int, side: Side) -> bool {
    match side {
        Side::White => a == t + 7 || a == t + 9,
        Side::Black => a == t - 7 || a == t - 9,
    }
}

/// Whether `is_square_attacked` returned a list that holds square `a`.
pub open spec fn reported(res: Result<Option<Vec<Square>>, ChessError>, a: Square) -> bool {
    match res {
        Ok(Some(squares)) => squares@.contains(a),
        _ => false,
    }
}

/// What `is_square_attacked` returned, with the list of squares as a
/// sequence.
pub open spec fn attack_view(res: Result<Option<Vec<Square>>, ChessError>) -> Result<
    Option<Seq<Square>>,
    ChessError,
> {
    match res {
        Ok(Some(squares)) => Ok(Some(squares@)),
        Ok(None) => Ok(None),
        Err(e) => Err(e),
    }
}

impl Position {
    /// The square `candidate`, if there is one and it holds the piece of kind
    /// `kind` of `side`; else nothing.
    pub open spec fn attacker_on(&self, candidate: Option<Square>, side: Side, kind: Piece) -> Seq<
        Square,
    > {
        match candidate {
            Some(sq) => if self.holds(sq as int, kind, side) {
                seq![sq]
            } else {
                Seq::empty()
            },
            None => Seq::empty(),
        }
    }

    /// The pawns of `side` that are taken to attack `target`. Where `side`
    /// is White they are looked for on the rank above the target, at the two
    /// indices that are 7 and 9 more than the target's; where `side` is Black,
    /// on the rank below it, at the two indices that are 7 and 9 less. Only
    /// the range of the index is checked, so from a square on the edge one
    /// of the two lies on the far side of the board.
    pub open spec fn pawn_attackers(&self, target: Square, side: Side) -> Seq<Square> {
        match side {
            Side::White => self.attacker_on(spec_offset_square(target as int, 7), side, Piece::Pawn)
                + self.attacker_on(spec_offset_square(target as int, 9), side, Piece::Pawn),
            Side::Black => self.attacker_on(
                spec_offset_square(target as int, -7),
                side,
                Piece::Pawn,
            ) + self.attacker_on(spec_offset_square(target as int, -9), side, Piece::Pawn),
        }
    }

    /// The king of `side` next to `target`, on each square where it stands.
    pub open spec fn king_attackers(&self, target: Square, side: Side) -> Seq<Square> {
        let t = target as int;
        self.attacker_on(spec_shifted(t, 1, 0), side, Piece::King) + self.attacker_on(
            spec_shifted(t, -1, 1),
            side,
            Piece::King,
        ) + self.attacker_on(spec_shifted(t, 0, 1), side, Piece::King) + self.attacker_on(
            spec_shifted(t, 1, 1),
            side,
            Piece::King,
        ) + self.attacker_on(spec_shifted(t, -1, 0), side, Piece::King) + self.attacker_on(
            spec_shifted(t, 1, -1),
            side,
            Piece::King,
        ) + self.attacker_on(spec_shifted(t, 0, -1), side, Piece::King) + self.attacker_on(
            spec_shifted(t, -1, -1),
            side,
            Piece::King,
        )
    }

    /// The knights of `side` a jump away from `target`.
    pub open spec fn knight_attackers(&self, target: Square, side: Side) -> Seq<Square> {
        let t = target as int;
        self.attacker_on(spec_shifted(t, -1, 2), side, Piece::Knight) + self.attacker_on(
            spec_shifted(t, 1, 2),
            side,
            Piece::Knight,
        ) + self.attacker_on(spec_shifted(t, -2, 1), side, Piece::Knight) + self.attacker_on(
            spec_shifted(t, -2, -1),
            side,
            Piece::Knight,
        ) + self.attacker_on(spec_shifted(t, -1, -2), side, Piece::Knight) + self.attacker_on(
            spec_shifted(t, 1, -2),
            side,
            Piece::Knight,
        ) + self.attacker_on(spec_shifted(t, 2, -1), side, Piece::Knight) + self.attacker_on(
            spec_shifted(t, 2, 1),
            side,
            Piece::Knight,
        )
    }

    /// The first piece on the ray that leaves square `cur` by `df` files and
    /// `dr` ranks per step, looked for over at most `steps` steps, if it
    /// belongs to `side` and slides along that ray; else nothing. A piece of
    /// the other side, and one of `side` that does not slide along the ray,
    /// ends the search.
    pub open spec fn ray_attacker(&self, side: Side, df: int, dr: int, cur: int, steps: nat) -> Seq<
        Square,
    >
        decreases steps,
    {
        let f = spec_file(cur) + df;
        let r = spec_rank(cur) + dr;
        if steps == 0 || !in_grid(f, r) {
            Seq::empty()
        } else {
            let to = spec_square(f, r);
            match self.board@[to] {
                None => self.ray_attacker(side, df, dr, to, (steps - 1) as nat),
                Some(occupant) => if occupant.side == side && slides_along(occupant.piece, df, dr) {
                    seq![to as u8]
                } else {
                    Seq::empty()
                },
            }
        }
    }

    /// The piece of `side` that attacks `target` along the whole ray in
    /// `direction`, if any.
    pub open spec fn slide_attacker(&self, target: Square, side: Side, direction: int) -> Seq<
        Square,
    > {
        self.ray_attacker(side, file_step(direction), rank_step(direction), target as int, 7)
    }

    /// The rooks, bishops and queens of `side` that attack `target` along
    /// the eight rays: down, up, left, right, then the four diagonals.
    pub open spec fn sliding_attackers(&self, target: Square, side: Side) -> Seq<Square> {
        self.slide_attacker(target, side, -8) + self.slide_attacker(target, side, 8)
            + self.slide_attacker(target, side, -1) + self.slide_attacker(target, side, 1)
            + self.slide_attacker(target, side, -7) + self.slide_attacker(target, side, 7)
            + self.slide_attacker(target, side, -9) + self.slide_attacker(target, side, 9)
    }

    /// The squares from which a piece of `side` attacks `target`: pawns
    /// first, then kings, knights and sliding pieces.
    #[verifier::opaque]
    pub open spec fn attackers(&self, target: Square, side: Side) -> Seq<Square> {
        self.pawn_attackers(target, side) + self.king_attackers(target, side)
            + self.knight_attackers(target, side) + self.sliding_attackers(target, side)
    }

    /// Whether square `a` is the first occupied square in the direction of
    /// `df` files and `dr` ranks from square `t`: it lies in that direction
    /// and every square between the two is empty.
    pub open spec fn first_on_ray(&self, t: int, a: int, df: int, dr: int) -> bool {
        &&& lies_towards(t, a, df, dr)
        &&& forall|b: int|
            on_board(b) && lies_towards(t, b, df, dr) && #[trigger] lies_towards(b, a, df, dr)
                ==> self.board@[b] is None
    }

    /// Whether square `a` holds a piece of `side` that slides in the
    /// direction of `df` files and `dr` ranks.
    pub open spec fn slider_on(&self, a: int, side: Side, df: int, dr: int) -> bool {
        match self.board@[a] {
            Some(p) => p.side == side && slides_along(p.piece, df, dr),
            None => false,
        }
    }

    /// Whether the piece on square `a` is a sliding piece of `side` that
    /// attacks square `t` along the ray of `df` files and `dr` ranks per step
    /// that leaves `t`.
    pub open spec fn slides_onto(&self, t: int, a: int, side: Side, df: int, dr: int) -> bool {
        on_board(a) && self.first_on_ray(t, a, df, dr) && self.slider_on(a, side, df, dr)
    }

    /// Whether the piece on square `a` is a piece of `side` that attacks
    /// square `t`: a pawn on one of the two squares where that side's pawns
    /// are looked for, a king one step away, a knight one jump away, or the
    /// first piece on a ray that leaves `t`, which is a rook or a queen on a
    /// file or a rank and a bishop or a queen on a diagonal.
    pub open spec fn attacks_from(&self, a: Square, t: Square, side: Side) -> bool {
        let a = a as int;
        let t = t as int;
        on_board(a) && {
            ||| self.holds(a, Piece::Pawn, side) && on_pawn_row(t, a, side)
            ||| self.holds(a, Piece::King, side) && one_step_away(t, a)
            ||| self.holds(a, Piece::Knight, side) && one_jump_away(t, a)
            ||| self.slides_onto(t, a, side, 0, -1)
            ||| self.slides_onto(t, a, side, 0, 1)
            ||| self.slides_onto(t, a, side, -1, 0)
            ||| self.slides_onto(t, a, side, 1, 0)
            ||| self.slides_onto(t, a, side, 1, -1)
            ||| self.slides_onto(t, a, side, -1, 1)
            ||| self.slides_onto(t, a, side, -1, -1)
            ||| self.slides_onto(t, a, side, 1, 1)
        }
    }

    /// What `is_square_attacked` returns: an error for a square off the
    /// board, nothing where no piece of the attacking side attacks, else the
    /// squares of that side's attackers.
    pub open spec fn spec_is_square_attacked(
        &self,
        from_square: Square,
        attacking_side: Side,
    ) -> Result<Option<Seq<Square>>, ChessError> {
        if !on_board(from_square as int) {
            Err(ChessError::NotASquareOnBoard { square: from_square })
        } else if self.attackers(from_square, attacking_side).len() == 0 {
            Ok(None)
        } else {
            Ok(Some(self.attackers(from_square, attacking_side)))
        }
    }

    /// Whether some piece of `side` attacks `target`.
    pub open spec fn is_attacked(&self, target: Square, side: Side) -> bool {
        self.attackers(target, side).len() > 0
    }

    /// Appends `candidate` where it holds the piece of kind `kind` of the
    /// side that attacks.
    fn record_attacker(
        &self,
        candidate: Option<Square>,
        attacking_side: Side,
        kind: Piece,
        attacking_squares: &mut Vec<Square>,
    )
        requires
            candidate is Some ==> on_board(candidate->0 as int),
        ensures
            final(attacking_squares)@ == old(attacking_squares)@ + self.attacker_on(
                candidate,
                attacking_side,
                kind,
            ),
    {
        let ghost start = attacking_squares@;
        if let Some(attack_square) = candidate {
            if let Some(target) = self.board[attack_square as usize] {
                if target.side == attacking_side && target.piece == kind {
                    attacking_squares.push(attack_square);
                }
            }
        }
        assert(attacking_squares@ =~= start + self.attacker_on(candidate, attacking_side, kind));
    }

    /// Walks one ray away from `from_square` up to the first piece and
    /// appends its square where that piece attacks along the ray.
    fn walk_attack_ray(
        &self,
        from_square: Square,
        attacking_side: Side,
        direction: i16,
        attacking_squares: &mut Vec<Square>,
    )
        requires
            on_board(from_square as int),
            is_ray_direction(direction as int),
        ensures
            final(attacking_squares)@ == old(attacking_squares)@ + self.slide_attacker(
                from_square,
                attacking_side,
                direction as int,
            ),
    {
        let ghost df = file_step(direction as int);
        let ghost dr = rank_step(direction as int);
        let ghost start = attacking_squares@;
        let ghost whole = self.slide_attacker(from_square, attacking_side, direction as int);
        let ghost mut left: nat = 7;
        let is_rook_ray = direction == 8 || direction == -8 || direction == 1 || direction == -1;
        let mut step_from: Square = from_square;
        loop
            invariant_except_break
                self.ray_attacker(attacking_side, df, dr, step_from as int, left) == whole,
                attacking_squares@ == start,
            invariant
                on_board(step_from as int),
                is_ray_direction(direction as int),
                df == file_step(direction as int),
                dr == rank_step(direction as int),
                is_rook_ray == (df == 0 || dr == 0),
                left <= 7,
                df == 1 ==> spec_file(step_from as int) >= 7 - left,
                df == -1 ==> spec_file(step_from as int) <= left,
                dr == 1 ==> spec_rank(step_from as int) >= 7 - left,
                dr == -1 ==> spec_rank(step_from as int) <= left,
            ensures
                attacking_squares@ == start + whole,
            decreases left,
        {
            let to_step = match king_step(step_from, direction) {
                None => {
                    assert(start + Seq::<Square>::empty() =~= start);
                    break ;
                },
                Some(x) => x,
            };
            proof {
                crate::lemma_square_splits(
                    spec_file(step_from as int) + df,
                    spec_rank(step_from as int) + dr,
                );
            }
            assert(left > 0);

            match self.board[to_step as usize] {
                None => {
                    step_from = to_step;
                    proof {
                        left = (left - 1) as nat;
                    }
                },
                Some(occupant) => {
                    if occupant.side != attacking_side {
                        assert(start + Seq::<Square>::empty() =~= start);
                        break ;
                    }
                    let attacks = if is_rook_ray {
                        occupant.piece == Piece::Rook || occupant.piece == Piece::Queen
                    } else {
                        occupant.piece == Piece::Bishop || occupant.piece == Piece::Queen
                    };

                    if attacks {
                        assert(start.push(to_step) =~= start + seq![to_step]);
                        attacking_squares.push(to_step);
                    } else {
                        assert(start + Seq::<Square>::empty() =~= start);
                    }
                    break ;
                },
            }
        }
    }

    /// Appends the pawns that attack `from_square`.
    fn pawn_pass(
        &self,
        from_square: Square,
        attacking_side: Side,
        attacking_squares: &mut Vec<Square>,
    )
        requires
            on_board(from_square as int),
        ensures
            final(attacking_squares)@ == old(attacking_squares)@ + self.pawn_attackers(
                from_square,
                attacking_side,
            ),
    {
        let ghost start = attacking_squares@;
        match attacking_side {
            Side::White => {
                let first = offset_square(from_square, 7);
                self.record_attacker(first, attacking_side, Piece::Pawn, attacking_squares);
                let second = offset_square(from_square, 9);
                self.record_attacker(second, attacking_side, Piece::Pawn, attacking_squares);
            },
            Side::Black => {
                let first = offset_square(from_square, -7);
                self.record_attacker(first, attacking_side, Piece::Pawn, attacking_squares);
                let second = offset_square(from_square, -9);
                self.record_attacker(second, attacking_side, Piece::Pawn, attacking_squares);
            },
        }
        assert(attacking_squares@ =~= start + self.pawn_attackers(from_square, attacking_side));
    }

    /// Appends the kings that attack `from_square`.
    fn king_pass(
        &self,
        from_square: Square,
        attacking_side: Side,
        attacking_squares: &mut Vec<Square>,
    )
        requires
            on_board(from_square as int),
        ensures
            final(attacking_squares)@ == old(attacking_squares)@ + self.king_attackers(
                from_square,
                attacking_side,
            ),
    {
        let ghost start = attacking_squares@;
        let ghost t = from_square as int;
        let c0 = king_step(from_square, 1);
        let ghost a0 = self.attacker_on(spec_shifted(t, 1, 0), attacking_side, Piece::King);
        assert(c0 == spec_shifted(t, 1, 0));
        self.record_attacker(c0, attacking_side, Piece::King, attacking_squares);
        let c1 = king_step(from_square, 7);
        let ghost a1 = self.attacker_on(spec_shifted(t, -1, 1), attacking_side, Piece::King);
        assert(c1 == spec_shifted(t, -1, 1));
        self.record_attacker(c1, attacking_side, Piece::King, attacking_squares);
        let c2 = king_step(from_square, 8);
        let ghost a2 = self.attacker_on(spec_shifted(t, 0, 1), attacking_side, Piece::King);
        assert(c2 == spec_shifted(t, 0, 1));
        self.record_attacker(c2, attacking_side, Piece::King, attacking_squares);
        let c3 = king_step(from_square, 9);
        let ghost a3 = self.attacker_on(spec_shifted(t, 1, 1), attacking_side, Piece::King);
        assert(c3 == spec_shifted(t, 1, 1));
        self.record_attacker(c3, attacking_side, Piece::King, attacking_squares);
        let c4 = king_step(from_square, -1);
        let ghost a4 = self.attacker_on(spec_shifted(t, -1, 0), attacking_side, Piece::King);
        assert(c4 == spec_shifted(t, -1, 0));
        self.record_attacker(c4, attacking_side, Piece::King, attacking_squares);
        let c5 = king_step(from_square, -7);
        let ghost a5 = self.attacker_on(spec_shifted(t, 1, -1), attacking_side, Piece::King);
        assert(c5 == spec_shifted(t, 1, -1));
        self.record_attacker(c5, attacking_side, Piece::King, attacking_squares);
        let c6 = king_step(from_square, -8);
        let ghost a6 = self.attacker_on(spec_shifted(t, 0, -1), attacking_side, Piece::King);
        assert(c6 == spec_shifted(t, 0, -1));
        self.record_attacker(c6, attacking_side, Piece::King, attacking_squares);
        let c7 = king_step(from_square, -9);
        let ghost a7 = self.attacker_on(spec_shifted(t, -1, -1), attacking_side, Piece::King);
        assert(c7 == spec_shifted(t, -1, -1));
        self.record_attacker(c7, attacking_side, Piece::King, attacking_squares);
        proof {
            lemma_append_eight(start, a0, a1, a2, a3, a4, a5, a6, a7);
        }
    }

    /// Appends the knights that attack `from_square`.
    fn knight_pass(
        &self,
        from_square: Square,
        attacking_side: Side,
        attacking_squares: &mut Vec<Square>,
    )
        requires
            on_board(from_square as int),
        ensures
            final(attacking_squares)@ == old(attacking_squares)@ + self.knight_attackers(
                from_square,
                attacking_side,
            ),
    {
        let ghost start = attacking_squares@;
        let ghost t = from_square as int;
        let c0 = knight_jump(from_square, 15);
        let ghost a0 = self.attacker_on(spec_shifted(t, -1, 2), attacking_side, Piece::Knight);
        assert(c0 == spec_shifted(t, -1, 2));
        self.record_attacker(c0, attacking_side, Piece::Knight, attacking_squares);
        let c1 = knight_jump(from_square, 17);
        let ghost a1 = self.attacker_on(spec_shifted(t, 1, 2), attacking_side, Piece::Knight);
        assert(c1 == spec_shifted(t, 1, 2));
        self.record_attacker(c1, attacking_side, Piece::Knight, attacking_squares);
        let c2 = knight_jump(from_square, 6);
        let ghost a2 = self.attacker_on(spec_shifted(t, -2, 1), attacking_side, Piece::Knight);
        assert(c2 == spec_shifted(t, -2, 1));
        self.record_attacker(c2, attacking_side, Piece::Knight, attacking_squares);
        let c3 = knight_jump(from_square, -10);
        let ghost a3 = self.attacker_on(spec_shifted(t, -2, -1), attacking_side, Piece::Knight);
        assert(c3 == spec_shifted(t, -2, -1));
        self.record_attacker(c3, attacking_side, Piece::Knight, attacking_squares);
        let c4 = knight_jump(from_square, -17);
        let ghost a4 = self.attacker_on(spec_shifted(t, -1, -2), attacking_side, Piece::Knight);
        assert(c4 == spec_shifted(t, -1, -2));
        self.record_attacker(c4, attacking_side, Piece::Knight, attacking_squares);
        let c5 = knight_jump(from_square, -15);
        let ghost a5 = self.attacker_on(spec_shifted(t, 1, -2), attacking_side, Piece::Knight);
        assert(c5 == spec_shifted(t, 1, -2));
        self.record_attacker(c5, attacking_side, Piece::Knight, attacking_squares);
        let c6 = knight_jump(from_square, -6);
        let ghost a6 = self.attacker_on(spec_shifted(t, 2, -1), attacking_side, Piece::Knight);
        assert(c6 == spec_shifted(t, 2, -1));
        self.record_attacker(c6, attacking_side, Piece::Knight, attacking_squares);
        let c7 = knight_jump(from_square, 10);
        let ghost a7 = self.attacker_on(spec_shifted(t, 2, 1), attacking_side, Piece::Knight);
        assert(c7 == spec_shifted(t, 2, 1));
        self.record_attacker(c7, attacking_side, Piece::Knight, attacking_squares);
        proof {
            lemma_append_eight(start, a0, a1, a2, a3, a4, a5, a6, a7);
        }
    }

    /// Appends the rooks, bishops and queens that attack `from_square`.
    fn sliding_pass(
        &self,
        from_square: Square,
        attacking_side: Side,
        attacking_squares: &mut Vec<Square>,
    )
        requires
            on_board(from_square as int),
        ensures
            final(attacking_squares)@ == old(attacking_squares)@ + self.sliding_attackers(
                from_square,
                attacking_side,
            ),
    {
        let ghost start = attacking_squares@;
        self.walk_attack_ray(from_square, attacking_side, -8, attacking_squares);
        self.walk_attack_ray(from_square, attacking_side, 8, attacking_squares);
        self.walk_attack_ray(from_square, attacking_side, -1, attacking_squares);
        self.walk_attack_ray(from_square, attacking_side, 1, attacking_squares);
        self.walk_attack_ray(from_square, attacking_side, -7, attacking_squares);
        self.walk_attack_ray(from_square, attacking_side, 7, attacking_squares);
        self.walk_attack_ray(from_square, attacking_side, -9, attacking_squares);
        self.walk_attack_ray(from_square, attacking_side, 9, attacking_squares);
        assert(attacking_squares@ =~= start + self.sliding_attackers(from_square, attacking_side));
    }

    /// The squares from which pieces of `attacking_side` attack
    /// `from_square`: its pawns on the two squares where they are looked for
    /// (7 and 9 above the square's index for White, below it for Black), its
    /// king one step away, its knights one jump away, and its rooks, bishops
    /// and queens that are the first piece on one of their rays from the
    /// square. Returns `None` where there is none, and an error where
    /// `from_square` is off the board.
    pub fn is_square_attacked(&self, from_square: Square, attacking_side: Side) -> (res: Result<
        Option<Vec<Square>>,
        ChessError,
    >)
        ensures
            attack_view(res) == self.spec_is_square_attacked(from_square, attacking_side),
            forall|a: Square|
                reported(res, a) <==> (on_board(from_square as int) && #[trigger] self.attacks_from(
                    a,
                    from_square,
                    attacking_side,
                )),
    {
        let mut attacking_squares: Vec<Square> = Vec::new();

        if from_square > 63 {
            return Err(ChessError::NotASquareOnBoard { square: from_square });
        }

        self.pawn_pass(from_square, attacking_side, &mut attacking_squares);
        self.king_pass(from_square, attacking_side, &mut attacking_squares);
        self.knight_pass(from_square, attacking_side, &mut attacking_squares);
        self.sliding_pass(from_square, attacking_side, &mut attacking_squares);
        proof {
            reveal(Position::attackers);
        }
        assert(attacking_squares@ =~= self.attackers(from_square, attacking_side));
        assert forall|a: Square|
            attacking_squares@.contains(a) <==> #[trigger] self.attacks_from(
                a,
                from_square,
                attacking_side,
            ) by {
            self.lemma_reported_exactly_the_attackers(from_square, attacking_side, a);
        }

        if attacking_squares.len() == 0 {
            return Ok(None);
        }

        Ok(Some(attacking_squares))
    }

    /// Whether some piece of `side` attacks `square`.
    pub(crate) fn attacked(&self, square: Square, side: Side) -> (res: bool)
        requires
            on_board(square as int),
        ensures
            res == self.is_attacked(square, side),
    {
        match self.is_square_attacked(square, side) {
            Ok(Some(_)) => true,
            _ => false,
        }
    }

    /// What `is_king_in_check` returns: what the detector returns for the
    /// square that the position records for the king of `side`, with the
    /// other side as the attacker.
    pub open spec fn spec_is_king_in_check(&self, side: Side) -> Result<
        Option<Seq<Square>>,
        ChessError,
    > {
        self.spec_is_square_attacked(self.king_squares@[side.spec_index()], side.spec_opponent())
    }

    /// The squares of the opposing pieces that attack the king of `side`, on
    /// the square that `king_squares` records for it. Returns `None` where the
    /// king is not in check, and an error where the recorded square is off
    /// the board.
    pub fn is_king_in_check(&self, side: Side) -> (res: Result<Option<Vec<Square>>, ChessError>)
        ensures
            attack_view(res) == self.spec_is_king_in_check(side),
            forall|a: Square|
                reported(res, a) <==> (on_board(self.king_squares@[side.spec_index()] as int)
                    && #[trigger] self.attacks_from(
                    a,
                    self.king_squares@[side.spec_index()],
                    side.spec_opponent(),
                )),
    {
        let (king_square, attack_side) = match side {
            Side::White => (self.king_squares[0], Side::Black),
            Side::Black => (self.king_squares[1], Side::White),
        };

        self.is_square_attacked(king_square, attack_side)
    }
}

impl Position {
    /// A recorded candidate is the candidate itself, and holds the piece
    /// looked for.
    pub proof fn lemma_candidate_found(
        &self,
        candidate: Option<Square>,
        side: Side,
        kind: Piece,
        a: Square,
    )
        ensures
            self.attacker_on(candidate, side, kind).contains(a) <==> (candidate == Some(a)
                && self.holds(a as int, kind, side)),
    {
        let found = self.attacker_on(candidate, side, kind);
        if candidate is Some && self.holds(candidate->0 as int, kind, side) {
            assert(found[0] == candidate->0);
        }
    }

    /// A value occurs in eight lists joined exactly when it occurs in one of
    /// them.
    pub proof fn lemma_eight_contain(
        a0: Seq<Square>,
        a1: Seq<Square>,
        a2: Seq<Square>,
        a3: Seq<Square>,
        a4: Seq<Square>,
        a5: Seq<Square>,
        a6: Seq<Square>,
        a7: Seq<Square>,
        x: Square,
    )
        ensures
            (a0 + a1 + a2 + a3 + a4 + a5 + a6 + a7).contains(x) <==> (a0.contains(x)
                || a1.contains(x) || a2.contains(x) || a3.contains(x) || a4.contains(x)
                || a5.contains(x) || a6.contains(x) || a7.contains(x)),
    {
        lemma_concat_contains(a0, a1, x);
        lemma_concat_contains(a0 + a1, a2, x);
        lemma_concat_contains(a0 + a1 + a2, a3, x);
        lemma_concat_contains(a0 + a1 + a2 + a3, a4, x);
        lemma_concat_contains(a0 + a1 + a2 + a3 + a4, a5, x);
        lemma_concat_contains(a0 + a1 + a2 + a3 + a4 + a5, a6, x);
        lemma_concat_contains(a0 + a1 + a2 + a3 + a4 + a5 + a6, a7, x);
    }

    /// The pawns reported are the pawns of the side on its two squares.
    pub proof fn lemma_pawns_found(&self, target: Square, side: Side, a: Square)
        requires
            on_board(target as int),
        ensures
            self.pawn_attackers(target, side).contains(a) <==> (on_board(a as int) && self.holds(
                a as int,
                Piece::Pawn,
                side,
            ) && on_pawn_row(target as int, a as int, side)),
    {
        let t = target as int;
        self.lemma_candidate_found(spec_offset_square(t, 7), side, Piece::Pawn, a);
        self.lemma_candidate_found(spec_offset_square(t, 9), side, Piece::Pawn, a);
        self.lemma_candidate_found(spec_offset_square(t, -7), side, Piece::Pawn, a);
        self.lemma_candidate_found(spec_offset_square(t, -9), side, Piece::Pawn, a);
        lemma_concat_contains(
            self.attacker_on(spec_offset_square(t, 7), side, Piece::Pawn),
            self.attacker_on(spec_offset_square(t, 9), side, Piece::Pawn),
            a,
        );
        lemma_concat_contains(
            self.attacker_on(spec_offset_square(t, -7), side, Piece::Pawn),
            self.attacker_on(spec_offset_square(t, -9), side, Piece::Pawn),
            a,
        );
    }

    /// The kings reported are the kings of the side one step away.
    pub proof fn lemma_kings_found(&self, target: Square, side: Side, a: Square)
        requires
            on_board(target as int),
        ensures
            self.king_attackers(target, side).contains(a) <==> (on_board(a as int) && self.holds(
                a as int,
                Piece::King,
                side,
            ) && one_step_away(target as int, a as int)),
    {
        let t = target as int;
        self.lemma_candidate_found(spec_shifted(t, 1, 0), side, Piece::King, a);
        self.lemma_candidate_found(spec_shifted(t, -1, 1), side, Piece::King, a);
        self.lemma_candidate_found(spec_shifted(t, 0, 1), side, Piece::King, a);
        self.lemma_candidate_found(spec_shifted(t, 1, 1), side, Piece::King, a);
        self.lemma_candidate_found(spec_shifted(t, -1, 0), side, Piece::King, a);
        self.lemma_candidate_found(spec_shifted(t, 1, -1), side, Piece::King, a);
        self.lemma_candidate_found(spec_shifted(t, 0, -1), side, Piece::King, a);
        self.lemma_candidate_found(spec_shifted(t, -1, -1), side, Piece::King, a);
        Self::lemma_eight_contain(
            self.attacker_on(spec_shifted(t, 1, 0), side, Piece::King),
            self.attacker_on(spec_shifted(t, -1, 1), side, Piece::King),
            self.attacker_on(spec_shifted(t, 0, 1), side, Piece::King),
            self.attacker_on(spec_shifted(t, 1, 1), side, Piece::King),
            self.attacker_on(spec_shifted(t, -1, 0), side, Piece::King),
            self.attacker_on(spec_shifted(t, 1, -1), side, Piece::King),
            self.attacker_on(spec_shifted(t, 0, -1), side, Piece::King),
            self.attacker_on(spec_shifted(t, -1, -1), side, Piece::King),
            a,
        );
        lemma_neighbours(t, a as int);
    }

    /// The knights reported are the knights of the side one jump away.
    pub proof fn lemma_knights_found(&self, target: Square, side: Side, a: Square)
        requires
            on_board(target as int),
        ensures
            self.knight_attackers(target, side).contains(a) <==> (on_board(a as int)
                && self.holds(a as int, Piece::Knight, side) && one_jump_away(
                target as int,
                a as int,
            )),
    {
        let t = target as int;
        self.lemma_candidate_found(spec_shifted(t, -1, 2), side, Piece::Knight, a);
        self.lemma_candidate_found(spec_shifted(t, 1, 2), side, Piece::Knight, a);
        self.lemma_candidate_found(spec_shifted(t, -2, 1), side, Piece::Knight, a);
        self.lemma_candidate_found(spec_shifted(t, -2, -1), side, Piece::Knight, a);
        self.lemma_candidate_found(spec_shifted(t, -1, -2), side, Piece::Knight, a);
        self.lemma_candidate_found(spec_shifted(t, 1, -2), side, Piece::Knight, a);
        self.lemma_candidate_found(spec_shifted(t, 2, -1), side, Piece::Knight, a);
        self.lemma_candidate_found(spec_shifted(t, 2, 1), side, Piece::Knight, a);
        Self::lemma_eight_contain(
            self.attacker_on(spec_shifted(t, -1, 2), side, Piece::Knight),
            self.attacker_on(spec_shifted(t, 1, 2), side, Piece::Knight),
            self.attacker_on(spec_shifted(t, -2, 1), side, Piece::Knight),
            self.attacker_on(spec_shifted(t, -2, -1), side, Piece::Knight),
            self.attacker_on(spec_shifted(t, -1, -2), side, Piece::Knight),
            self.attacker_on(spec_shifted(t, 1, -2), side, Piece::Knight),
            self.attacker_on(spec_shifted(t, 2, -1), side, Piece::Knight),
            self.attacker_on(spec_shifted(t, 2, 1), side, Piece::Knight),
            a,
        );
        lemma_jumps(t, a as int);
    }
}

impl Position {
    /// The piece found along a ray is the first piece on the ray, belongs to
    /// the side and slides along the ray, and every such piece is found.
    pub proof fn lemma_ray_attacker_found(
        &self,
        side: Side,
        df: int,
        dr: int,
        cur: int,
        steps: nat,
        a: Square,
    )
        requires
            on_board(cur),
            -1 <= df <= 1,
            -1 <= dr <= 1,
            df != 0 || dr != 0,
            df == 1 ==> spec_file(cur) >= 7 - steps,
            df == -1 ==> spec_file(cur) <= steps,
            dr == 1 ==> spec_rank(cur) >= 7 - steps,
            dr == -1 ==> spec_rank(cur) <= steps,
        ensures
            self.ray_attacker(side, df, dr, cur, steps).contains(a) <==> self.slides_onto(
                cur,
                a as int,
                side,
                df,
                dr,
            ),
        decreases steps,
    {
        let f = spec_file(cur) + df;
        let r = spec_rank(cur) + dr;
        let found = self.ray_attacker(side, df, dr, cur, steps);
        let x = a as int;
        if steps == 0 || !in_grid(f, r) {
            assert(!in_grid(f, r));
            if on_board(x) {
                lemma_ray_ends(cur, x, df, dr);
            }
        } else {
            let next = spec_square(f, r);
            lemma_square_splits(f, r);
            if on_board(x) {
                lemma_step_along(cur, x, df, dr);
            }
            match self.board@[next] {
                None => {
                    self.lemma_ray_attacker_found(side, df, dr, next, (steps - 1) as nat, a);
                    if self.slides_onto(next, x, side, df, dr) {
                        assert forall|b: int|
                            on_board(b) && lies_towards(cur, b, df, dr) && #[trigger] lies_towards(
                                b,
                                x,
                                df,
                                dr,
                            ) implies self.board@[b] is None by {
                            lemma_step_along(cur, b, df, dr);
                        }
                    }
                    if self.slides_onto(cur, x, side, df, dr) {
                        assert(x != next);
                        assert forall|b: int|
                            on_board(b) && lies_towards(next, b, df, dr) && #[trigger] lies_towards(
                                b,
                                x,
                                df,
                                dr,
                            ) implies self.board@[b] is None by {
                            lemma_step_along(cur, b, df, dr);
                        }
                    }
                },
                Some(occupant) => {
                    if occupant.side == side && slides_along(occupant.piece, df, dr) {
                        assert(found[0] == next as u8);
                    }
                    if x == next {
                        assert forall|b: int|
                            on_board(b) && lies_towards(cur, b, df, dr) && #[trigger] lies_towards(
                                b,
                                x,
                                df,
                                dr,
                            ) implies self.board@[b] is None by {
                            lemma_step_along(cur, b, df, dr);
                        }
                    } else if on_board(x) && lies_towards(cur, x, df, dr) {
                        assert(lies_towards(next, x, df, dr));
                        assert(!self.first_on_ray(cur, x, df, dr));
                    }
                },
            }
        }
    }

    /// The sliding pieces reported are the pieces of the side that are first
    /// on a ray from the target and slide along it.
    pub proof fn lemma_sliders_found(&self, target: Square, side: Side, a: Square)
        requires
            on_board(target as int),
        ensures
            self.sliding_attackers(target, side).contains(a) <==> (self.slides_onto(
                target as int,
                a as int,
                side,
                0,
                -1,
            ) || self.slides_onto(target as int, a as int, side, 0, 1) || self.slides_onto(
                target as int,
                a as int,
                side,
                -1,
                0,
            ) || self.slides_onto(target as int, a as int, side, 1, 0) || self.slides_onto(
                target as int,
                a as int,
                side,
                1,
                -1,
            ) || self.slides_onto(target as int, a as int, side, -1, 1) || self.slides_onto(
                target as int,
                a as int,
                side,
                -1,
                -1,
            ) || self.slides_onto(target as int, a as int, side, 1, 1)),
    {
        let t = target as int;
        lemma_coordinates_round_trip(t);
        self.lemma_ray_attacker_found(side, 0, -1, t, 7, a);
        self.lemma_ray_attacker_found(side, 0, 1, t, 7, a);
        self.lemma_ray_attacker_found(side, -1, 0, t, 7, a);
        self.lemma_ray_attacker_found(side, 1, 0, t, 7, a);
        self.lemma_ray_attacker_found(side, 1, -1, t, 7, a);
        self.lemma_ray_attacker_found(side, -1, 1, t, 7, a);
        self.lemma_ray_attacker_found(side, -1, -1, t, 7, a);
        self.lemma_ray_attacker_found(side, 1, 1, t, 7, a);
        Self::lemma_eight_contain(
            self.slide_attacker(target, side, -8),
            self.slide_attacker(target, side, 8),
            self.slide_attacker(target, side, -1),
            self.slide_attacker(target, side, 1),
            self.slide_attacker(target, side, -7),
            self.slide_attacker(target, side, 7),
            self.slide_attacker(target, side, -9),
            self.slide_attacker(target, side, 9),
            a,
        );
    }

    /// A square is reported exactly when it holds a piece of the attacking
    /// side that attacks the target: a pawn on one of that side's two
    /// squares, a king one step away, a knight one jump away, or the first
    /// piece on a ray, a rook or queen on a file or rank and a bishop or queen
    /// on a diagonal.
    pub proof fn lemma_reported_exactly_the_attackers(&self, target: Square, side: Side, a: Square)
        requires
            on_board(target as int),
        ensures
            self.attackers(target, side).contains(a) <==> self.attacks_from(a, target, side),
    {
        reveal(Position::attackers);
        let pawns = self.pawn_attackers(target, side);
        let kings = self.king_attackers(target, side);
        let knights = self.knight_attackers(target, side);
        let sliders = self.sliding_attackers(target, side);
        self.lemma_pawns_found(target, side, a);
        self.lemma_kings_found(target, side, a);
        self.lemma_knights_found(target, side, a);
        self.lemma_sliders_found(target, side, a);
        lemma_concat_contains(pawns, kings, a);
        lemma_concat_contains(pawns + kings, knights, a);
        lemma_concat_contains(pawns + kings + knights, sliders, a);
    }

    /// Whether each of `squares` is a square of the board that holds a piece
    /// of `side`.
    pub open spec fn held_by(&self, squares: Seq<Square>, side: Side) -> bool {
        forall|i: int|
            0 <= i < squares.len() ==> {
                let sq = #[trigger] squares[i];
                &&& on_board(sq as int)
                &&& self.board@[sq as int] is Some
                &&& self.board@[sq as int]->0.side == side
            }
    }

    /// Every square that the detector reports is a square of the board and
    /// holds a piece of the attacking side.
    pub proof fn lemma_attackers_belong_to_side(&self, target: Square, side: Side)
        requires
            on_board(target as int),
        ensures
            self.held_by(self.attackers(target, side), side),
    {
        let found = self.attackers(target, side);
        assert forall|i: int| 0 <= i < found.len() implies {
            let sq = #[trigger] found[i];
            &&& on_board(sq as int)
            &&& self.board@[sq as int] is Some
            &&& self.board@[sq as int]->0.side == side
        } by {
            assert(found.contains(found[i]));
            self.lemma_reported_exactly_the_attackers(target, side, found[i]);
        }
    }
}

/// Where the board ends one step from `cur` in a direction, no square of the
/// board lies in that direction from `cur`.
pub proof fn lemma_ray_ends(cur: int, x: int, df: int, dr: int)
    requires
        on_board(cur),
        on_board(x),
        -1 <= df <= 1,
        -1 <= dr <= 1,
        !in_grid(spec_file(cur) + df, spec_rank(cur) + dr),
    ensures
        !lies_towards(cur, x, df, dr),
{
    lemma_coordinates_round_trip(cur);
    lemma_coordinates_round_trip(x);
}

/// One step from `cur` in a direction leads to a square in that direction
/// with none between the two, and the squares in that direction from there
/// are the other squares in that direction from `cur`.
pub proof fn lemma_step_along(cur: int, x: int, df: int, dr: int)
    requires
        on_board(cur),
        on_board(x),
        -1 <= df <= 1,
        -1 <= dr <= 1,
        df != 0 || dr != 0,
        in_grid(spec_file(cur) + df, spec_rank(cur) + dr),
    ensures
        ({
            let next = spec_square(spec_file(cur) + df, spec_rank(cur) + dr);
            &&& on_board(next)
            &&& lies_towards(cur, next, df, dr)
            &&& lies_towards(next, x, df, dr) <==> (lies_towards(cur, x, df, dr) && x != next)
            &&& !(lies_towards(cur, x, df, dr) && lies_towards(x, next, df, dr))
        }),
{
    let next = spec_square(spec_file(cur) + df, spec_rank(cur) + dr);
    lemma_coordinates_round_trip(cur);
    lemma_coordinates_round_trip(x);
    lemma_square_splits(spec_file(cur) + df, spec_rank(cur) + dr);
    assert(x == next <==> (spec_file(x) == spec_file(next) && spec_rank(x) == spec_rank(next)));
}

/// The square `df` files and `dr` ranks away from `t` is `a` exactly when
/// `a` has those coordinates.
pub proof fn lemma_shifted_is(t: int, a: int, df: int, dr: int)
    requires
        on_board(t),
        on_board(a),
    ensures
        spec_shifted(t, df, dr) == Some(a as u8) <==> (spec_file(a) == spec_file(t) + df
            && spec_rank(a) == spec_rank(t) + dr),
{
    lemma_coordinates_round_trip(a);
    lemma_coordinates_round_trip(t);
    if in_grid(spec_file(t) + df, spec_rank(t) + dr) {
        lemma_square_splits(spec_file(t) + df, spec_rank(t) + dr);
    }
}

/// The eight neighbours of a square are the squares one step away from it.
pub proof fn lemma_neighbours(t: int, a: int)
    requires
        on_board(t),
        0 <= a <= 255,
    ensures
        (on_board(a) && one_step_away(t, a)) <==> (spec_shifted(t, 1, 0) == Some(a as u8)
            || spec_shifted(t, -1, 1) == Some(a as u8) || spec_shifted(t, 0, 1) == Some(a as u8)
            || spec_shifted(t, 1, 1) == Some(a as u8) || spec_shifted(t, -1, 0) == Some(a as u8)
            || spec_shifted(t, 1, -1) == Some(a as u8) || spec_shifted(t, 0, -1) == Some(a as u8)
            || spec_shifted(t, -1, -1) == Some(a as u8)),
{
    if on_board(a) {
        lemma_coordinates_round_trip(a);
        lemma_coordinates_round_trip(t);
        lemma_shifted_is(t, a, 1, 0);
        lemma_shifted_is(t, a, -1, 1);
        lemma_shifted_is(t, a, 0, 1);
        lemma_shifted_is(t, a, 1, 1);
        lemma_shifted_is(t, a, -1, 0);
        lemma_shifted_is(t, a, 1, -1);
        lemma_shifted_is(t, a, 0, -1);
        lemma_shifted_is(t, a, -1, -1);
    }
}

/// The eight squares a knight's jump from a square are the squares one jump
/// away from it.
pub proof fn lemma_jumps(t: int, a: int)
    requires
        on_board(t),
        0 <= a <= 255,
    ensures
        (on_board(a) && one_jump_away(t, a)) <==> (spec_shifted(t, -1, 2) == Some(a as u8)
            || spec_shifted(t, 1, 2) == Some(a as u8) || spec_shifted(t, -2, 1) == Some(a as u8)
            || spec_shifted(t, -2, -1) == Some(a as u8) || spec_shifted(t, -1, -2) == Some(
            a as u8,
        ) || spec_shifted(t, 1, -2) == Some(a as u8) || spec_shifted(t, 2, -1) == Some(a as u8)
            || spec_shifted(t, 2, 1) == Some(a as u8)),
{
    if on_board(a) {
        lemma_shifted_is(t, a, -1, 2);
        lemma_shifted_is(t, a, 1, 2);
        lemma_shifted_is(t, a, -2, 1);
        lemma_shifted_is(t, a, -2, -1);
        lemma_shifted_is(t, a, -1, -2);
        lemma_shifted_is(t, a, 1, -2);
        lemma_shifted_is(t, a, 2, -1);
        lemma_shifted_is(t, a, 2, 1);
    }
}

} // verus!
