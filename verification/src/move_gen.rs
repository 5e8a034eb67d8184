//! Where a king and a knight can go on a board without other pieces.

use vstd::prelude::*;
use crate::helper::{king_step, knight_jump, lemma_append_eight, spec_shifted};
use crate::{on_board, Square};

verus! {

/// The square `df` files and `dr` ranks away from `from`, as a list of one
/// square, or of none where the board ends before it.
pub open spec fn reached(from: Square, df: int, dr: int) -> Seq<Square> {
    match spec_shifted(from as int, df, dr) {
        Some(to) => seq![to],
        None => Seq::empty(),
    }
}

/// The neighbours of `from`, rank by rank from the one below, each rank
/// from left to right.
pub open spec fn spec_king_targets(from: Square) -> Seq<Square> {
    reached(from, -1, -1) + reached(from, 0, -1) + reached(from, 1, -1) + reached(from, -1, 0)
        + reached(from, 1, 0) + reached(from, -1, 1) + reached(from, 0, 1) + reached(from, 1, 1)
}

/// The squares a knight's jump away from `from`, from the two that lie two
/// ranks below to the two that lie two ranks above.
pub open spec fn spec_knight_targets(from: Square) -> Seq<Square> {
    reached(from, -1, -2) + reached(from, 1, -2) + reached(from, -2, -1) + reached(from, 2, -1)
        + reached(from, -2, 1) + reached(from, 2, 1) + reached(from, -1, 2) + reached(from, 1, 2)
}

/// Appends `candidate`, if there is one.
fn push_some(target_squares: &mut Vec<Square>, candidate: Option<Square>)
    ensures
        final(target_squares)@ == old(target_squares)@ + (match candidate {
            Some(to) => seq![to],
            None => Seq::empty(),
        }),
{
    let ghost start = target_squares@;
    if let Some(to) = candidate {
        target_squares.push(to);
        assert(target_squares@ =~= start + seq![to]);
    } else {
        assert(target_squares@ =~= start + Seq::<Square>::empty());
    }
}

/// The squares to which a king on `inital_square` can step on a board
/// without other pieces.
pub fn king_targets(inital_square: Square) -> (target_squares: Vec<Square>)
    requires
        on_board(inital_square as int),
    ensures
        target_squares@ == spec_king_targets(inital_square),
{
    let mut target_squares: Vec<Square> = Vec::new();
    let ghost start = target_squares@;
    let ghost a0 = reached(inital_square, -1, -1);
    let ghost a1 = reached(inital_square, 0, -1);
    let ghost a2 = reached(inital_square, 1, -1);
    let ghost a3 = reached(inital_square, -1, 0);
    let ghost a4 = reached(inital_square, 1, 0);
    let ghost a5 = reached(inital_square, -1, 1);
    let ghost a6 = reached(inital_square, 0, 1);
    let ghost a7 = reached(inital_square, 1, 1);
    push_some(&mut target_squares, king_step(inital_square, -9));
    assert(target_squares@ == start + a0);
    push_some(&mut target_squares, king_step(inital_square, -8));
    assert(target_squares@ == start + a0 + a1);
    push_some(&mut target_squares, king_step(inital_square, -7));
    assert(target_squares@ == start + a0 + a1 + a2);
    push_some(&mut target_squares, king_step(inital_square, -1));
    assert(target_squares@ == start + a0 + a1 + a2 + a3);
    push_some(&mut target_squares, king_step(inital_square, 1));
    assert(target_squares@ == start + a0 + a1 + a2 + a3 + a4);
    push_some(&mut target_squares, king_step(inital_square, 7));
    assert(target_squares@ == start + a0 + a1 + a2 + a3 + a4 + a5);
    push_some(&mut target_squares, king_step(inital_square, 8));
    assert(target_squares@ == start + a0 + a1 + a2 + a3 + a4 + a5 + a6);
    push_some(&mut target_squares, king_step(inital_square, 9));
    proof {
        lemma_append_eight(start, a0, a1, a2, a3, a4, a5, a6, a7);
        assert(start + spec_king_targets(inital_square) =~= spec_king_targets(inital_square));
    }
    target_squares
}

/// The squares to which a knight on `inital_square` can jump on a board
/// without other pieces.
pub fn knight_targets(inital_square: Square) -> (target_squares: Vec<Square>)
    requires
        on_board(inital_square as int),
    ensures
        target_squares@ == spec_knight_targets(inital_square),
{
    let mut target_squares: Vec<Square> = Vec::new();
    let ghost start = target_squares@;
    let ghost a0 = reached(inital_square, -1, -2);
    let ghost a1 = reached(inital_square, 1, -2);
    let ghost a2 = reached(inital_square, -2, -1);
    let ghost a3 = reached(inital_square, 2, -1);
    let ghost a4 = reached(inital_square, -2, 1);
    let ghost a5 = reached(inital_square, 2, 1);
    let ghost a6 = reached(inital_square, -1, 2);
    let ghost a7 = reached(inital_square, 1, 2);
    push_some(&mut target_squares, knight_jump(inital_square, -17));
    assert(target_squares@ == start + a0);
    push_some(&mut target_squares, knight_jump(inital_square, -15));
    assert(target_squares@ == start + a0 + a1);
    push_some(&mut target_squares, knight_jump(inital_square, -10));
    assert(target_squares@ == start + a0 + a1 + a2);
    push_some(&mut target_squares, knight_jump(inital_square, -6));
    assert(target_squares@ == start + a0 + a1 + a2 + a3);
    push_some(&mut target_squares, knight_jump(inital_square, 6));
    assert(target_squares@ == start + a0 + a1 + a2 + a3 + a4);
    push_some(&mut target_squares, knight_jump(inital_square, 10));
    assert(target_squares@ == start + a0 + a1 + a2 + a3 + a4 + a5);
    push_some(&mut target_squares, knight_jump(inital_square, 15));
    assert(target_squares@ == start + a0 + a1 + a2 + a3 + a4 + a5 + a6);
    push_some(&mut target_squares, knight_jump(inital_square, 17));
    proof {
        lemma_append_eight(start, a0, a1, a2, a3, a4, a5, a6, a7);
        assert(start + spec_knight_targets(inital_square) =~= spec_knight_targets(inital_square));
    }
    target_squares
}

} // verus!
