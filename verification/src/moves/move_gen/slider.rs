//! The ray walker that rook, bishop and queen share.

use vstd::prelude::*;
use crate::helper::king_step;
use crate::moves::make_move::{move_of, Move, MoveKind};
use crate::position::Position;
use crate::{in_grid, on_board, spec_file, spec_rank, spec_square, ColoredPiece, Square};

verus! {

/// Whether `direction` is the difference of index between a square and one
/// of its eight neighbours.
pub open spec fn is_ray_direction(direction: int) -> bool {
    direction == -9 || direction == -8 || direction == -7 || direction == -1 || direction == 1
        || direction == 7 || direction == 8 || direction == 9
}

/// By how much one step in `direction` changes the file.
pub open spec fn file_step(direction: int) -> int {
    if direction == -9 || direction == -1 || direction == 7 {
        -1
    } else if direction == -8 || direction == 8 {
        0
    } else {
        1
    }
}

/// By how much one step in `direction` changes the rank.
pub open spec fn rank_step(direction: int) -> int {
    if direction <= -7 {
        -1
    } else if direction >= 7 {
        1
    } else {
        0
    }
}

/// Whether square `to` lies in the direction of `df` files and `dr` ranks
/// from square `from`: to the side and towards the rank that the signs of
/// `df` and `dr` name, on the same file or rank where one of them is zero,
/// and as many files away as ranks where neither is.
pub open spec fn lies_towards(from: int, to: int, df: int, dr: int) -> bool {
    let files = spec_file(to) - spec_file(from);
    let ranks = spec_rank(to) - spec_rank(from);
    &&& df == 0 ==> files == 0
    &&& df > 0 ==> files > 0
    &&& df < 0 ==> files < 0
    &&& dr == 0 ==> ranks == 0
    &&& dr > 0 ==> ranks > 0
    &&& dr < 0 ==> ranks < 0
    &&& df != 0 && dr != 0 ==> (files == ranks || files == -ranks)
}

/// Whether square `to` is another square of the file or of the rank of
/// square `from`.
pub open spec fn on_line_with(from: int, to: int) -> bool {
    to != from && (spec_file(to) == spec_file(from) || spec_rank(to) == spec_rank(from))
}

/// Whether square `to` is another square of a diagonal through square
/// `from`: as many files away as ranks.
pub open spec fn on_diagonal_with(from: int, to: int) -> bool {
    let files = spec_file(to) - spec_file(from);
    let ranks = spec_rank(to) - spec_rank(from);
    to != from && (files == ranks || files == -ranks)
}

impl Position {
    /// The moves of `mover`, which stands on `from_square`, along the ray
    /// that leaves square `cur` by `df` files and `dr` ranks per step, for at
    /// most `steps` steps: a quiet move to every empty square up to the
    /// first occupied one or the edge of the board, then a capture if that
    /// first occupied square holds a piece of the other side. Nearest first.
    pub open spec fn ray_moves(
        &self,
        from_square: Square,
        mover: ColoredPiece,
        df: int,
        dr: int,
        cur: int,
        steps: nat,
    ) -> Seq<Move>
        decreases steps,
    {
        let f = spec_file(cur) + df;
        let r = spec_rank(cur) + dr;
        if steps == 0 || !in_grid(f, r) {
            Seq::empty()
        } else {
            let to = spec_square(f, r);
            match self.board@[to] {
                None => seq![move_of(from_square, to, mover, MoveKind::Quiet)] + self.ray_moves(
                    from_square,
                    mover,
                    df,
                    dr,
                    to,
                    (steps - 1) as nat,
                ),
                Some(occupant) => if occupant.side != mover.side {
                    seq![move_of(from_square, to, mover, MoveKind::Capture)]
                } else {
                    Seq::empty()
                },
            }
        }
    }

    /// The moves of `mover` from `from_square` along the whole ray in
    /// `direction`. Seven steps reach the far edge from any square.
    pub open spec fn slide_moves(
        &self,
        from_square: Square,
        mover: ColoredPiece,
        direction: int,
    ) -> Seq<Move> {
        self.ray_moves(
            from_square,
            mover,
            file_step(direction),
            rank_step(direction),
            from_square as int,
            7,
        )
    }

    /// The moves along the four diagonals: down-right, up-left, down-left,
    /// up-right, in this order.
    pub open spec fn diagonal_moves(&self, from_square: Square, mover: ColoredPiece) -> Seq<Move> {
        self.slide_moves(from_square, mover, -7) + self.slide_moves(from_square, mover, 7)
            + self.slide_moves(from_square, mover, -9) + self.slide_moves(from_square, mover, 9)
    }

    /// The moves along the file and the rank: down, up, left, right, in this
    /// order.
    pub open spec fn orthogonal_moves(&self, from_square: Square, mover: ColoredPiece) -> Seq<
        Move,
    > {
        self.slide_moves(from_square, mover, -8) + self.slide_moves(from_square, mover, 8)
            + self.slide_moves(from_square, mover, -1) + self.slide_moves(from_square, mover, 1)
    }

    /// Walks one ray from `from_square` and appends its moves: a quiet move
    /// for each empty square, and a capture where the first piece on the ray
    /// belongs to the other side.
    pub(crate) fn walk_ray(
        &self,
        from_square: Square,
        colored_piece: ColoredPiece,
        direction: i16,
        target_moves: &mut Vec<Move>,
    )
        requires
            on_board(from_square as int),
            is_ray_direction(direction as int),
        ensures
            final(target_moves)@ == old(target_moves)@ + self.slide_moves(
                from_square,
                colored_piece,
                direction as int,
            ),
    {
        let ghost df = file_step(direction as int);
        let ghost dr = rank_step(direction as int);
        let ghost start = target_moves@;
        let ghost whole = self.slide_moves(from_square, colored_piece, direction as int);
        let ghost mut left: nat = 7;
        let mut step_from: Square = from_square;
        assert(target_moves@ + whole =~= start + whole);
        loop
            invariant_except_break
                target_moves@ + self.ray_moves(
                    from_square,
                    colored_piece,
                    df,
                    dr,
                    step_from as int,
                    left,
                ) == start + whole,
            invariant
                on_board(step_from as int),
                is_ray_direction(direction as int),
                df == file_step(direction as int),
                dr == rank_step(direction as int),
                left <= 7,
                df == 1 ==> spec_file(step_from as int) >= 7 - left,
                df == -1 ==> spec_file(step_from as int) <= left,
                dr == 1 ==> spec_rank(step_from as int) >= 7 - left,
                dr == -1 ==> spec_rank(step_from as int) <= left,
            ensures
                target_moves@ == start + whole,
            decreases left,
        {
            let step_to = match king_step(step_from, direction) {
                None => {
                    assert(target_moves@ + Seq::<Move>::empty() =~= target_moves@);
                    break ;
                },
                Some(x) => x,
            };
            proof {
                crate::lemma_square_splits(
                    spec_file(step_from as int) + df,
                    spec_rank(step_from as int) + dr,
                );
            }
            assert(left > 0);
            let ghost rest = self.ray_moves(
                from_square,
                colored_piece,
                df,
                dr,
                step_to as int,
                (left - 1) as nat,
            );

            match self.board[step_to as usize] {
                None => {
                    let quiet = Move {
                        colored_piece: colored_piece,
                        from_square: from_square,
                        to_square: step_to,
                        move_kind: MoveKind::Quiet,
                    };
                    assert(quiet == move_of(
                        from_square,
                        step_to as int,
                        colored_piece,
                        MoveKind::Quiet,
                    ));
                    assert(target_moves@.push(quiet) + rest =~= target_moves@ + (seq![quiet]
                        + rest));
                    target_moves.push(quiet);
                    step_from = step_to;
                    proof {
                        left = (left - 1) as nat;
                    }
                },
                Some(occupant) => {
                    if colored_piece.side != occupant.side {
                        let capture = Move {
                            colored_piece: colored_piece,
                            from_square: from_square,
                            to_square: step_to,
                            move_kind: MoveKind::Capture,
                        };
                        assert(capture == move_of(
                            from_square,
                            step_to as int,
                            colored_piece,
                            MoveKind::Capture,
                        ));
                        assert(target_moves@.push(capture) =~= target_moves@ + seq![capture]);
                        target_moves.push(capture);
                    } else {
                        assert(target_moves@ + Seq::<Move>::empty() =~= target_moves@);
                    }
                    break ;
                },
            }
        }
    }

    /// Appends the moves of a piece that slides along the diagonals.
    pub fn diagonal_slider(
        &self,
        from_square: Square,
        colored_piece: ColoredPiece,
        target_moves: &mut Vec<Move>,
    )
        requires
            on_board(from_square as int),
        ensures
            final(target_moves)@ == old(target_moves)@ + self.diagonal_moves(
                from_square,
                colored_piece,
            ),
    {
        let ghost start = target_moves@;
        self.walk_ray(from_square, colored_piece, -7, target_moves);
        self.walk_ray(from_square, colored_piece, 7, target_moves);
        self.walk_ray(from_square, colored_piece, -9, target_moves);
        self.walk_ray(from_square, colored_piece, 9, target_moves);
        assert(target_moves@ =~= start + self.diagonal_moves(from_square, colored_piece));
    }

    /// Appends the moves of a piece that slides along its file and its rank.
    pub fn horizontal_vertical_slider(
        &self,
        from_square: Square,
        colored_piece: ColoredPiece,
        target_moves: &mut Vec<Move>,
    )
        requires
            on_board(from_square as int),
        ensures
            final(target_moves)@ == old(target_moves)@ + self.orthogonal_moves(
                from_square,
                colored_piece,
            ),
    {
        let ghost start = target_moves@;
        self.walk_ray(from_square, colored_piece, -8, target_moves);
        self.walk_ray(from_square, colored_piece, 8, target_moves);
        self.walk_ray(from_square, colored_piece, -1, target_moves);
        self.walk_ray(from_square, colored_piece, 1, target_moves);
        assert(target_moves@ =~= start + self.orthogonal_moves(from_square, colored_piece));
    }
}

impl Position {
    /// Every move along a ray ends on that ray: a step never leaves the board
    /// on one side to come back on the other.
    pub proof fn lemma_ray_moves_stay_on_ray(
        &self,
        from_square: Square,
        mover: ColoredPiece,
        df: int,
        dr: int,
        cur: int,
        steps: nat,
    )
        requires
            on_board(from_square as int),
            on_board(cur),
            -1 <= df <= 1,
            -1 <= dr <= 1,
            df != 0 || dr != 0,
            cur == from_square || lies_towards(from_square as int, cur, df, dr),
        ensures
            forall|i: int|
                0 <= i < self.ray_moves(from_square, mover, df, dr, cur, steps).len()
                    ==> lies_towards(
                    from_square as int,
                    (#[trigger] self.ray_moves(
                        from_square,
                        mover,
                        df,
                        dr,
                        cur,
                        steps,
                    )[i]).to_square as int,
                    df,
                    dr,
                ),
        decreases steps,
    {
        let f = spec_file(cur) + df;
        let r = spec_rank(cur) + dr;
        if steps > 0 && in_grid(f, r) {
            let to = spec_square(f, r);
            crate::lemma_square_splits(f, r);
            assert(spec_file(to) - spec_file(from_square as int) == spec_file(cur) - spec_file(
                from_square as int,
            ) + df);
            assert(spec_rank(to) - spec_rank(from_square as int) == spec_rank(cur) - spec_rank(
                from_square as int,
            ) + dr);
            assert(lies_towards(from_square as int, to, df, dr));
            if self.board@[to] is None {
                self.lemma_ray_moves_stay_on_ray(
                    from_square,
                    mover,
                    df,
                    dr,
                    to,
                    (steps - 1) as nat,
                );
            }
        }
    }

    /// Every move along the file and the rank ends on another square of the
    /// file or of the rank of the source square.
    pub proof fn lemma_orthogonal_moves_stay_on_lines(
        &self,
        from_square: Square,
        mover: ColoredPiece,
    )
        requires
            on_board(from_square as int),
        ensures
            forall|i: int|
                0 <= i < self.orthogonal_moves(from_square, mover).len() ==> on_line_with(
                    from_square as int,
                    (#[trigger] self.orthogonal_moves(from_square, mover)[i]).to_square as int,
                ),
    {
        let from = from_square as int;
        let a = self.slide_moves(from_square, mover, -8);
        let b = self.slide_moves(from_square, mover, 8);
        let c = self.slide_moves(from_square, mover, -1);
        let d = self.slide_moves(from_square, mover, 1);
        self.lemma_ray_moves_stay_on_ray(from_square, mover, 0, -1, from, 7);
        self.lemma_ray_moves_stay_on_ray(from_square, mover, 0, 1, from, 7);
        self.lemma_ray_moves_stay_on_ray(from_square, mover, -1, 0, from, 7);
        self.lemma_ray_moves_stay_on_ray(from_square, mover, 1, 0, from, 7);
        let all = self.orthogonal_moves(from_square, mover);
        assert forall|i: int| 0 <= i < all.len() implies on_line_with(
            from,
            (#[trigger] all[i]).to_square as int,
        ) by {
            if i < a.len() {
                assert(all[i] == a[i]);
            } else if i < a.len() + b.len() {
                assert(all[i] == b[i - a.len()]);
            } else if i < a.len() + b.len() + c.len() {
                assert(all[i] == c[i - a.len() - b.len()]);
            } else {
                assert(all[i] == d[i - a.len() - b.len() - c.len()]);
            }
        }
    }

    /// Every move along the diagonals ends on another square of a diagonal
    /// through the source square.
    pub proof fn lemma_diagonal_moves_stay_on_diagonals(
        &self,
        from_square: Square,
        mover: ColoredPiece,
    )
        requires
            on_board(from_square as int),
        ensures
            forall|i: int|
                0 <= i < self.diagonal_moves(from_square, mover).len() ==> on_diagonal_with(
                    from_square as int,
                    (#[trigger] self.diagonal_moves(from_square, mover)[i]).to_square as int,
                ),
    {
        let from = from_square as int;
        let a = self.slide_moves(from_square, mover, -7);
        let b = self.slide_moves(from_square, mover, 7);
        let c = self.slide_moves(from_square, mover, -9);
        let d = self.slide_moves(from_square, mover, 9);
        self.lemma_ray_moves_stay_on_ray(from_square, mover, 1, -1, from, 7);
        self.lemma_ray_moves_stay_on_ray(from_square, mover, -1, 1, from, 7);
        self.lemma_ray_moves_stay_on_ray(from_square, mover, -1, -1, from, 7);
        self.lemma_ray_moves_stay_on_ray(from_square, mover, 1, 1, from, 7);
        let all = self.diagonal_moves(from_square, mover);
        assert forall|i: int| 0 <= i < all.len() implies on_diagonal_with(
            from,
            (#[trigger] all[i]).to_square as int,
        ) by {
            if i < a.len() {
                assert(all[i] == a[i]);
            } else if i < a.len() + b.len() {
                assert(all[i] == b[i - a.len()]);
            } else if i < a.len() + b.len() + c.len() {
                assert(all[i] == c[i - a.len() - b.len()]);
            } else {
                assert(all[i] == d[i - a.len() - b.len() - c.len()]);
            }
        }
    }

    /// The moves along a ray are offered.
    pub proof fn lemma_ray_offered(
        &self,
        from_square: Square,
        mover: ColoredPiece,
        df: int,
        dr: int,
        cur: int,
        steps: nat,
    )
        requires
            on_board(from_square as int),
            self.board@[from_square as int] == Some(mover),
        ensures
            self.offers_all(
                from_square,
                mover,
                self.ray_moves(from_square, mover, df, dr, cur, steps),
            ),
        decreases steps,
    {
        let f = spec_file(cur) + df;
        let r = spec_rank(cur) + dr;
        if steps > 0 && in_grid(f, r) {
            let to = spec_square(f, r);
            if self.board@[to] is None {
                let first = seq![move_of(from_square, to, mover, MoveKind::Quiet)];
                self.lemma_ray_offered(from_square, mover, df, dr, to, (steps - 1) as nat);
                assert(self.offers(from_square, mover, first[0]));
                self.lemma_offers_joined(
                    from_square,
                    mover,
                    first,
                    self.ray_moves(from_square, mover, df, dr, to, (steps - 1) as nat),
                );
            }
        }
    }

    /// The moves of a piece that slides along its file and rank, and those
    /// of one that slides along the diagonals, are offered.
    pub proof fn lemma_slides_offered(&self, from_square: Square, mover: ColoredPiece)
        requires
            on_board(from_square as int),
            self.board@[from_square as int] == Some(mover),
        ensures
            self.offers_all(from_square, mover, self.orthogonal_moves(from_square, mover)),
            self.offers_all(from_square, mover, self.diagonal_moves(from_square, mover)),
    {
        let from = from_square as int;
        self.lemma_ray_offered(from_square, mover, 0, -1, from, 7);
        self.lemma_ray_offered(from_square, mover, 0, 1, from, 7);
        self.lemma_ray_offered(from_square, mover, -1, 0, from, 7);
        self.lemma_ray_offered(from_square, mover, 1, 0, from, 7);
        self.lemma_ray_offered(from_square, mover, 1, -1, from, 7);
        self.lemma_ray_offered(from_square, mover, -1, 1, from, 7);
        self.lemma_ray_offered(from_square, mover, -1, -1, from, 7);
        self.lemma_ray_offered(from_square, mover, 1, 1, from, 7);
        let a = self.slide_moves(from_square, mover, -8);
        let b = self.slide_moves(from_square, mover, 8);
        let c = self.slide_moves(from_square, mover, -1);
        let d = self.slide_moves(from_square, mover, 1);
        self.lemma_offers_joined(from_square, mover, a, b);
        self.lemma_offers_joined(from_square, mover, a + b, c);
        self.lemma_offers_joined(from_square, mover, a + b + c, d);
        let a = self.slide_moves(from_square, mover, -7);
        let b = self.slide_moves(from_square, mover, 7);
        let c = self.slide_moves(from_square, mover, -9);
        let d = self.slide_moves(from_square, mover, 9);
        self.lemma_offers_joined(from_square, mover, a, b);
        self.lemma_offers_joined(from_square, mover, a + b, c);
        self.lemma_offers_joined(from_square, mover, a + b + c, d);
    }
}

} // verus!
