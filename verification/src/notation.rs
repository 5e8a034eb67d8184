//! Writing a board down: the placement field of a position string, and the
//! board as lines of text.

use vstd::prelude::*;
use crate::errors::FenError;
use crate::position::{
    digit_value, empty_board, piece_of_letter, placement_onto, spec_placement, Position,
};
use crate::{ColoredPiece, Piece, Side};

verus! {

/// The digit that stands for the number `n`, which is at most 9.
pub open spec fn digit_char(n: int) -> char {
    ((48 + n) as u8) as char
}

/// The placement of rank `rank` of `board` from file `file` on, with `run`
/// empty squares before that file not yet written: a digit for each longest
/// run of empty squares and a letter for each piece.
pub open spec fn rank_placement(
    board: Seq<Option<ColoredPiece>>,
    rank: int,
    file: int,
    run: int,
) -> Seq<char>
    decreases 8 - file,
{
    let pending = if run > 0 {
        seq![digit_char(run)]
    } else {
        Seq::empty()
    };
    if file >= 8 {
        pending
    } else {
        match board[rank * 8 + file] {
            None => rank_placement(board, rank, file + 1, run + 1),
            Some(piece) => pending + seq![piece.spec_to_char()] + rank_placement(
                board,
                rank,
                file + 1,
                0,
            ),
        }
    }
}

/// The placement of the ranks of `board` from `rank` down to the first,
/// with a `/` between two ranks.
pub open spec fn placement_from_rank(board: Seq<Option<ColoredPiece>>, rank: int) -> Seq<char>
    decreases rank,
{
    if rank <= 0 {
        rank_placement(board, 0, 0, 0)
    } else {
        rank_placement(board, rank, 0, 0) + seq!['/'] + placement_from_rank(board, rank - 1)
    }
}

/// The placement field that describes `board`: its ranks from the eighth
/// down to the first.
pub open spec fn placement_of(board: Seq<Option<ColoredPiece>>) -> Seq<char> {
    placement_from_rank(board, 7)
}

/// The text of rank `rank` of `board` from file `file` on: a space and the
/// piece's letter for a piece, two spaces for an empty square, and a line
/// feed at the end of the rank.
pub open spec fn row_text(board: Seq<Option<ColoredPiece>>, rank: int, file: int) -> Seq<char>
    decreases 8 - file,
{
    if file >= 8 {
        seq!['\n']
    } else {
        (match board[rank * 8 + file] {
            Some(piece) => seq![' ', piece.spec_to_char()],
            None => seq![' ', ' '],
        }) + row_text(board, rank, file + 1)
    }
}

/// The text of the ranks of `board` from `rank` down to the first.
pub open spec fn text_from_rank(board: Seq<Option<ColoredPiece>>, rank: int) -> Seq<char>
    decreases rank,
{
    if rank <= 0 {
        row_text(board, 0, 0)
    } else {
        row_text(board, rank, 0) + text_from_rank(board, rank - 1)
    }
}

/// The letter of `piece` as a string.
fn letter_of(piece: ColoredPiece) -> (letter: &'static str)
    ensures
        letter@ == seq![piece.spec_to_char()],
{
    proof {
        reveal_strlit("K");
        reveal_strlit("Q");
        reveal_strlit("R");
        reveal_strlit("B");
        reveal_strlit("N");
        reveal_strlit("P");
        reveal_strlit("k");
        reveal_strlit("q");
        reveal_strlit("r");
        reveal_strlit("b");
        reveal_strlit("n");
        reveal_strlit("p");
    }
    let letter = match piece.side {
        Side::White => match piece.piece {
            Piece::King => "K",
            Piece::Queen => "Q",
            Piece::Rook => "R",
            Piece::Bishop => "B",
            Piece::Knight => "N",
            Piece::Pawn => "P",
        },
        Side::Black => match piece.piece {
            Piece::King => "k",
            Piece::Queen => "q",
            Piece::Rook => "r",
            Piece::Bishop => "b",
            Piece::Knight => "n",
            Piece::Pawn => "p",
        },
    };
    assert(letter@ =~= seq![piece.spec_to_char()]);
    letter
}

/// The digit of `run`, a number of empty squares, as a string; nothing for
/// no square.
fn digit_of(run: u8) -> (digit: &'static str)
    requires
        run <= 8,
    ensures
        digit@ == (if run > 0 {
            seq![digit_char(run as int)]
        } else {
            Seq::<char>::empty()
        }),
{
    proof {
        reveal_strlit("");
        reveal_strlit("1");
        reveal_strlit("2");
        reveal_strlit("3");
        reveal_strlit("4");
        reveal_strlit("5");
        reveal_strlit("6");
        reveal_strlit("7");
        reveal_strlit("8");
    }
    let digit = if run == 0 {
        ""
    } else if run == 1 {
        "1"
    } else if run == 2 {
        "2"
    } else if run == 3 {
        "3"
    } else if run == 4 {
        "4"
    } else if run == 5 {
        "5"
    } else if run == 6 {
        "6"
    } else if run == 7 {
        "7"
    } else {
        "8"
    };
    assert(digit@ =~= (if run > 0 {
        seq![digit_char(run as int)]
    } else {
        Seq::<char>::empty()
    }));
    digit
}

impl Position {
    /// Appends the placement of rank `rank`.
    fn write_rank(&self, rank: u8, placement: &mut String)
        requires
            rank <= 7,
        ensures
            final(placement)@ == old(placement)@ + rank_placement(self.board@, rank as int, 0, 0),
    {
        let ghost start = placement@;
        let ghost whole = rank_placement(self.board@, rank as int, 0, 0);
        let mut file: u8 = 0;
        let mut run: u8 = 0;
        while file < 8
            invariant
                rank <= 7,
                run <= file <= 8,
                placement@ + rank_placement(self.board@, rank as int, file as int, run as int)
                    == start + whole,
            decreases 8 - file,
        {
            let ghost before = placement@;
            let ghost rest = rank_placement(self.board@, rank as int, file + 1, 0);
            let sq = crate::square(file, rank);
            match self.board[sq as usize] {
                None => {
                    run += 1;
                },
                Some(piece) => {
                    let digit = digit_of(run);
                    placement.append(digit);
                    let letter = letter_of(piece);
                    placement.append(letter);
                    assert(placement@ + rest =~= before + (digit@ + letter@ + rest));
                    run = 0;
                },
            }
            file += 1;
        }
        let digit = digit_of(run);
        placement.append(digit);
    }

    /// The placement field that describes the board: the ranks from the
    /// eighth down to the first with a `/` between two of them, each rank
    /// from the first file on, a letter for a piece and a digit for a run of
    /// empty squares.
    pub fn placement(&self) -> (placement: String)
        ensures
            placement@ == placement_of(self.board@),
    {
        let mut placement = String::new();
        let mut rank: u8 = 7;
        assert(placement@ + placement_of(self.board@) =~= placement_of(self.board@));
        while rank > 0
            invariant
                rank <= 7,
                placement@ + placement_from_rank(self.board@, rank as int) == placement_of(
                    self.board@,
                ),
            decreases rank,
        {
            let ghost before = placement@;
            let ghost first = rank_placement(self.board@, rank as int, 0, 0);
            let ghost below = placement_from_rank(self.board@, rank - 1);
            self.write_rank(rank, &mut placement);
            placement.append("/");
            proof {
                reveal_strlit("/");
                assert("/"@ =~= seq!['/']);
                assert(placement@ + below =~= before + (first + seq!['/'] + below));
            }
            rank -= 1;
        }
        self.write_rank(0, &mut placement);
        placement
    }

    /// Appends the text of rank `rank`.
    fn write_row(&self, rank: u8, text: &mut String)
        requires
            rank <= 7,
        ensures
            final(text)@ == old(text)@ + row_text(self.board@, rank as int, 0),
    {
        let ghost start = text@;
        let ghost whole = row_text(self.board@, rank as int, 0);
        let mut file: u8 = 0;
        proof {
            reveal_strlit(" ");
            reveal_strlit("  ");
            reveal_strlit("\n");
        }
        while file < 8
            invariant
                rank <= 7,
                file <= 8,
                " "@ == seq![' '],
                "  "@ == seq![' ', ' '],
                text@ + row_text(self.board@, rank as int, file as int) == start + whole,
            decreases 8 - file,
        {
            let ghost before = text@;
            let ghost rest = row_text(self.board@, rank as int, file + 1);
            let sq = crate::square(file, rank);
            match self.board[sq as usize] {
                Some(piece) => {
                    let letter = letter_of(piece);
                    text.append(" ");
                    text.append(letter);
                    assert(text@ + rest =~= before + (seq![' ', piece.spec_to_char()] + rest));
                },
                None => {
                    text.append("  ");
                    assert(text@ + rest =~= before + (seq![' ', ' '] + rest));
                },
            }
            file += 1;
        }
        text.append("\n");
        assert("\n"@ =~= seq!['\n']);
    }

    /// The board as eight lines of text, the eighth rank first: on each line
    /// a space and the piece's letter for a piece and two spaces for an empty
    /// square.
    pub fn board_text(&self) -> (text: String)
        ensures
            text@ == text_from_rank(self.board@, 7),
    {
        let mut text = String::new();
        let mut rank: u8 = 7;
        assert(text@ + text_from_rank(self.board@, 7) =~= text_from_rank(self.board@, 7));
        while rank > 0
            invariant
                rank <= 7,
                text@ + text_from_rank(self.board@, rank as int) == text_from_rank(
                    self.board@,
                    7,
                ),
            decreases rank,
        {
            let ghost before = text@;
            let ghost first = row_text(self.board@, rank as int, 0);
            let ghost below = text_from_rank(self.board@, rank - 1);
            self.write_row(rank, &mut text);
            assert(text@ + below =~= before + (first + below));
            rank -= 1;
        }
        self.write_row(0, &mut text);
        text
    }
}

/// `board` with the pieces that `target` has on rank `rank` from file `file`
/// on put onto it.
pub open spec fn overlaid_rank(
    board: Seq<Option<ColoredPiece>>,
    target: Seq<Option<ColoredPiece>>,
    rank: int,
    file: int,
) -> Seq<Option<ColoredPiece>> {
    Seq::new(
        64,
        |i: int|
            if i / 8 == rank && i % 8 >= file && target[i] is Some {
                target[i]
            } else {
                board[i]
            },
    )
}

/// `board` with the pieces that `target` has on the ranks up to `rank` put
/// onto it.
pub open spec fn overlaid_below(
    board: Seq<Option<ColoredPiece>>,
    target: Seq<Option<ColoredPiece>>,
    rank: int,
) -> Seq<Option<ColoredPiece>> {
    Seq::new(
        64,
        |i: int|
            if i / 8 <= rank && target[i] is Some {
                target[i]
            } else {
                board[i]
            },
    )
}

/// A piece's letter stands for that piece, and is neither a digit nor the
/// separator of ranks.
pub proof fn lemma_letter_round_trip(piece: ColoredPiece)
    ensures
        piece_of_letter(piece.spec_to_char()) == Some(piece),
        digit_value(piece.spec_to_char()) is None,
        piece.spec_to_char() != '/',
{
}

/// Reading a character and then the rest is reading the whole.
proof fn lemma_read_one(c: char, rest: Seq<char>)
    ensures
        (seq![c] + rest)[0] == c,
        (seq![c] + rest).drop_first() == rest,
{
    assert((seq![c] + rest).drop_first() =~= rest);
}

/// Reading the placement of the rest of a rank puts the pieces of that rest
/// onto the board and arrives at the end of the rank.
proof fn lemma_read_rank(
    target: Seq<Option<ColoredPiece>>,
    board: Seq<Option<ColoredPiece>>,
    rank: int,
    file: int,
    run: int,
    tail: Seq<char>,
)
    requires
        target.len() == 64,
        board.len() == 64,
        0 <= rank <= 7,
        0 <= run <= file <= 8,
    ensures
        placement_onto(rank_placement(target, rank, file, run) + tail, board, file - run, rank)
            == placement_onto(tail, overlaid_rank(board, target, rank, file), 8, rank),
    decreases 8 - file,
{
    let here = rank_placement(target, rank, file, run);
    let after = overlaid_rank(board, target, rank, file);
    if file >= 8 {
        assert(after =~= board);
        if run > 0 {
            lemma_read_one(digit_char(run), tail);
            assert(here + tail =~= seq![digit_char(run)] + tail);
            assert(digit_value(digit_char(run)) == Some(run as u8));
        } else {
            assert(here + tail =~= tail);
        }
    } else {
        match target[rank * 8 + file] {
            None => {
                lemma_read_rank(target, board, rank, file + 1, run + 1, tail);
                assert(overlaid_rank(board, target, rank, file + 1) =~= after);
            },
            Some(piece) => {
                let letter = piece.spec_to_char();
                let rest = rank_placement(target, rank, file + 1, 0);
                let placed = board.update(rank * 8 + file, Some(piece));
                lemma_letter_round_trip(piece);
                lemma_read_rank(target, placed, rank, file + 1, 0, tail);
                assert(overlaid_rank(placed, target, rank, file + 1) =~= after);
                lemma_read_one(letter, rest + tail);
                assert(placement_onto(seq![letter] + (rest + tail), board, file, rank)
                    == placement_onto(rest + tail, placed, file + 1, rank));
                if run > 0 {
                    lemma_read_one(digit_char(run), seq![letter] + (rest + tail));
                    assert(digit_value(digit_char(run)) == Some(run as u8));
                    assert(here + tail =~= seq![digit_char(run)] + (seq![letter] + (rest + tail)));
                } else {
                    assert(here + tail =~= seq![letter] + (rest + tail));
                }
            },
        }
    }
}

/// Reading the placement of the ranks from `rank` down puts the pieces of
/// those ranks onto the board.
proof fn lemma_read_ranks(
    target: Seq<Option<ColoredPiece>>,
    board: Seq<Option<ColoredPiece>>,
    rank: int,
)
    requires
        target.len() == 64,
        board.len() == 64,
        0 <= rank <= 7,
    ensures
        placement_onto(placement_from_rank(target, rank), board, 0, rank) == Ok::<
            Seq<Option<ColoredPiece>>,
            FenError,
        >(overlaid_below(overlaid_rank(board, target, rank, 0), target, rank - 1)),
    decreases rank,
{
    let first = rank_placement(target, rank, 0, 0);
    let after = overlaid_rank(board, target, rank, 0);
    if rank == 0 {
        lemma_read_rank(target, board, 0, 0, 0, Seq::empty());
        assert(first + Seq::<char>::empty() =~= first);
        assert(overlaid_below(after, target, -1) =~= after);
    } else {
        let below = placement_from_rank(target, rank - 1);
        lemma_read_rank(target, board, rank, 0, 0, seq!['/'] + below);
        assert(first + seq!['/'] + below =~= first + (seq!['/'] + below));
        lemma_read_one('/', below);
        lemma_read_ranks(target, after, rank - 1);
        assert(overlaid_below(overlaid_rank(after, target, rank - 1, 0), target, rank - 2)
            =~= overlaid_below(after, target, rank - 1));
    }
}

/// Writing a board down as a placement and reading the placement back gives
/// the same board.
pub proof fn lemma_placement_round_trip(board: Seq<Option<ColoredPiece>>)
    requires
        board.len() == 64,
    ensures
        spec_placement(placement_of(board)) == Ok::<Seq<Option<ColoredPiece>>, FenError>(board),
{
    lemma_read_ranks(board, empty_board(), 7);
    assert(overlaid_below(overlaid_rank(empty_board(), board, 7, 0), board, 6) =~= board);
}

} // verus!
