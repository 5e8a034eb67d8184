//! A chess rules engine: the position model, per-piece move generation,
//! attack detection and move application, with every function's behaviour
//! stated as a contract and proved.

use vstd::prelude::*;

pub mod controller;
pub mod errors;
pub mod helper;
pub mod move_gen;
pub mod moves;
pub mod notation;
pub mod position;

verus! {

/// One of the two players.
#[derive(Copy, Clone, Debug, PartialEq, Eq, Hash, Structural)]
pub enum Side {
    White,
    Black,
}

/// The kind of a chess piece. An empty square is an absent piece, never a kind.
#[derive(Copy, Clone, Debug, PartialEq, Eq, Hash, Structural)]
pub enum Piece {
    King,
    Queen,
    Rook,
    Bishop,
    Knight,
    Pawn,
}

/// A piece kind together with the side that owns it.
#[derive(Copy, Clone, Debug, PartialEq, Eq, Structural)]
pub struct ColoredPiece {
    pub piece: Piece,
    pub side: Side,
}

/// A square of the board as a linear index: `rank * 8 + file`, in `0..=63`.
pub type Square = u8;

/// The four castling rights, in the order of `Position::castle`.
#[derive(Copy, Clone, Debug, PartialEq, Eq, Structural)]
pub enum CastleRigth {
    WK,
    WQ,
    BK,
    BQ,
}

/// Whether `sq` is the index of one of the 64 squares.
pub open spec fn on_board(sq: int) -> bool {
    0 <= sq <= 63
}

/// Whether `(f, r)` are the file and rank of a square of the board.
pub open spec fn in_grid(f: int, r: int) -> bool {
    0 <= f <= 7 && 0 <= r <= 7
}

/// The file of a square index: its column, counted from 0.
pub open spec fn spec_file(sq: int) -> int {
    sq % 8
}

/// The rank of a square index: its row, counted from 0.
pub open spec fn spec_rank(sq: int) -> int {
    sq / 8
}

/// The index of the square at file `f` and rank `r`.
pub open spec fn spec_square(f: int, r: int) -> int {
    r * 8 + f
}

/// The file (column, `0..=7`) of a square of the board.
pub fn file(square: Square) -> (f: u8)
    requires
        on_board(square as int),
    ensures
        f as int == spec_file(square as int),
        f <= 7,
{
    square % 8
}

/// The rank (row, `0..=7`) of a square of the board.
pub fn rank(square: Square) -> (r: u8)
    requires
        on_board(square as int),
    ensures
        r as int == spec_rank(square as int),
        r <= 7,
{
    square / 8
}

/// The square at the given file and rank, each in `0..=7`.
pub fn square(file: u8, rank: u8) -> (sq: Square)
    requires
        in_grid(file as int, rank as int),
    ensures
        sq as int == spec_square(file as int, rank as int),
        on_board(sq as int),
{
    rank * 8 + file
}

impl CastleRigth {
    /// Where the flag of this right stands in `Position::castle`.
    pub open spec fn spec_index(self) -> int {
        match self {
            CastleRigth::WK => 0,
            CastleRigth::WQ => 1,
            CastleRigth::BK => 2,
            CastleRigth::BQ => 3,
        }
    }

    /// Where the flag of this right stands in `Position::castle`.
    pub fn index(self) -> (i: usize)
        ensures
            i as int == self.spec_index(),
    {
        match self {
            CastleRigth::WK => 0,
            CastleRigth::WQ => 1,
            CastleRigth::BK => 2,
            CastleRigth::BQ => 3,
        }
    }

    /// The right of `side` to castle towards the king's rook.
    pub open spec fn spec_king_side(side: Side) -> CastleRigth {
        match side {
            Side::White => CastleRigth::WK,
            Side::Black => CastleRigth::BK,
        }
    }

    /// The right of `side` to castle towards the queen's rook.
    pub open spec fn spec_queen_side(side: Side) -> CastleRigth {
        match side {
            Side::White => CastleRigth::WQ,
            Side::Black => CastleRigth::BQ,
        }
    }

    /// The right of `side` to castle towards the king's rook.
    pub fn king_side(side: Side) -> (right: CastleRigth)
        ensures
            right == Self::spec_king_side(side),
    {
        match side {
            Side::White => CastleRigth::WK,
            Side::Black => CastleRigth::BK,
        }
    }

    /// The right of `side` to castle towards the queen's rook.
    pub fn queen_side(side: Side) -> (right: CastleRigth)
        ensures
            right == Self::spec_queen_side(side),
    {
        match side {
            Side::White => CastleRigth::WQ,
            Side::Black => CastleRigth::BQ,
        }
    }
}

impl Side {
    /// Where this side's entry stands in `Position::king_squares`.
    pub open spec fn spec_index(self) -> int {
        match self {
            Side::White => 0,
            Side::Black => 1,
        }
    }

    /// Where this side's entry stands in `Position::king_squares`.
    pub fn index(self) -> (i: usize)
        ensures
            i as int == self.spec_index(),
    {
        match self {
            Side::White => 0,
            Side::Black => 1,
        }
    }

    /// The square on which this side's king starts the game.
    pub open spec fn spec_king_home(self) -> Square {
        match self {
            Side::White => 4,
            Side::Black => 60,
        }
    }

    /// The square on which this side's king starts the game.
    pub fn king_home(self) -> (sq: Square)
        ensures
            sq == self.spec_king_home(),
    {
        match self {
            Side::White => 4,
            Side::Black => 60,
        }
    }

    /// The other side.
    pub open spec fn spec_opponent(self) -> Side {
        match self {
            Side::White => Side::Black,
            Side::Black => Side::White,
        }
    }

    /// The other side.
    pub fn opponent(self) -> (s: Side)
        ensures
            s == self.spec_opponent(),
    {
        match self {
            Side::White => Side::Black,
            Side::Black => Side::White,
        }
    }
}

impl ColoredPiece {
    /// The letter that stands for this piece in board notation: `k q r b n p`,
    /// in upper case for White and in lower case for Black.
    pub open spec fn spec_to_char(self) -> char {
        match (self.side, self.piece) {
            (Side::White, Piece::King) => 'K',
            (Side::White, Piece::Queen) => 'Q',
            (Side::White, Piece::Rook) => 'R',
            (Side::White, Piece::Bishop) => 'B',
            (Side::White, Piece::Knight) => 'N',
            (Side::White, Piece::Pawn) => 'P',
            (Side::Black, Piece::King) => 'k',
            (Side::Black, Piece::Queen) => 'q',
            (Side::Black, Piece::Rook) => 'r',
            (Side::Black, Piece::Bishop) => 'b',
            (Side::Black, Piece::Knight) => 'n',
            (Side::Black, Piece::Pawn) => 'p',
        }
    }

    /// The letter that stands for this piece in board notation.
    pub fn to_char(&self) -> (c: char)
        ensures
            c == self.spec_to_char(),
    {
        match self.side {
            Side::White => match self.piece {
                Piece::King => 'K',
                Piece::Queen => 'Q',
                Piece::Rook => 'R',
                Piece::Bishop => 'B',
                Piece::Knight => 'N',
                Piece::Pawn => 'P',
            },
            Side::Black => match self.piece {
                Piece::King => 'k',
                Piece::Queen => 'q',
                Piece::Rook => 'r',
                Piece::Bishop => 'b',
                Piece::Knight => 'n',
                Piece::Pawn => 'p',
            },
        }
    }
}

/// Splitting a square into file and rank and joining them again gives the
/// square back, and the file and rank of a joined square are the ones joined.
pub proof fn lemma_coordinates_round_trip(s: int)
    requires
        on_board(s),
    ensures
        in_grid(spec_file(s), spec_rank(s)),
        spec_square(spec_file(s), spec_rank(s)) == s,
        spec_rank(spec_square(spec_file(s), spec_rank(s))) == spec_rank(s),
        spec_file(spec_square(spec_file(s), spec_rank(s))) == spec_file(s),
{
}

/// The file and rank of the square joined from a file and a rank are that
/// file and that rank.
pub proof fn lemma_square_splits(f: int, r: int)
    requires
        in_grid(f, r),
    ensures
        on_board(spec_square(f, r)),
        spec_file(spec_square(f, r)) == f,
        spec_rank(spec_square(f, r)) == r,
{
}

} // verus!
