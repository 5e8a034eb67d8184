//! The position: a snapshot of the board and of the state that the rules need.

use vstd::prelude::*;
use crate::errors::FenError;
use crate::{ColoredPiece, Piece, Side, Square};

verus! {

/// A snapshot of a game: the 64 squares, the side to move, the four castling
/// rights (white king side, white queen side, black king side, black queen
/// side), the square a pawn has just skipped over, if any, and the squares of
/// the two kings (White's first).
#[derive(Clone, Debug)]
pub struct Position {
    pub board: [Option<ColoredPiece>; 64],
    pub side_to_move: Side,
    pub castle: [bool; 4],
    pub en_passant: Option<Square>,
    pub king_squares: [Square; 2],
}

/// A position as a mathematical value: its arrays as sequences.
pub struct PositionView {
    pub board: Seq<Option<ColoredPiece>>,
    pub side_to_move: Side,
    pub castle: Seq<bool>,
    pub en_passant: Option<Square>,
    pub king_squares: Seq<Square>,
}

impl View for Position {
    type V = PositionView;

    open spec fn view(&self) -> PositionView {
        PositionView {
            board: self.board@,
            side_to_move: self.side_to_move,
            castle: self.castle@,
            en_passant: self.en_passant,
            king_squares: self.king_squares@,
        }
    }
}

impl Position {
    /// Whether square `sq` holds the piece `kind` of side `side`.
    pub open spec fn holds(&self, sq: int, kind: Piece, side: Side) -> bool
        recommends
            0 <= sq <= 63,
    {
        self.board@[sq] == Some(ColoredPiece { piece: kind, side })
    }
}

/// Whether `c` separates the fields of a position string: a white space
/// character of Unicode.
pub open spec fn is_fen_space(c: char) -> bool {
    let code = c as u32;
    (0x09 <= code <= 0x0D) || code == 0x20 || code == 0x85 || code == 0xA0 || code == 0x1680 || (
    0x2000 <= code <= 0x200A) || code == 0x2028 || code == 0x2029 || code == 0x202F || code
        == 0x205F || code == 0x3000
}

/// The fields of `s`: its longest runs of characters that are no white
/// space, in order. Reading `s` from the left, a character that is no white
/// space lengthens the last field where the character before it belongs to
/// one, and starts a new field otherwise.
pub open spec fn fen_fields(s: Seq<char>) -> Seq<Seq<char>>
    decreases s.len(),
{
    if s.len() == 0 {
        Seq::empty()
    } else {
        let before = fen_fields(s.drop_last());
        if is_fen_space(s.last()) {
            before
        } else if s.len() >= 2 && !is_fen_space(s[s.len() - 2]) && before.len() > 0 {
            before.drop_last().push(before.last().push(s.last()))
        } else {
            before.push(seq![s.last()])
        }
    }
}

/// The letter `c` in lower case where it is one of `A` to `Z`, else `c`.
pub open spec fn ascii_lower(c: char) -> char {
    if 'A' <= c && c <= 'Z' {
        ((c as u8) + 32) as char
    } else {
        c
    }
}

/// The file that the letter `c` names: `a` to `h`, in either case.
pub open spec fn file_of_letter(c: char) -> Option<u8> {
    let l = ascii_lower(c);
    if 'a' <= l && l <= 'h' {
        Some(((l as u8) - 97) as u8)
    } else {
        None
    }
}

/// The rank that the digit `c` names: `1` to `8`.
pub open spec fn rank_of_digit(c: char) -> Option<u8> {
    if '1' <= c && c <= '8' {
        Some(((c as u8) - 49) as u8)
    } else {
        None
    }
}

/// The square that `s` names in algebraic notation, such as `e3`: a file
/// letter and a rank digit. A string of another width than two characters
/// is refused with that width, then a wrong file letter, then a wrong rank
/// digit, each with the character in lower case.
pub open spec fn spec_square_from_string(s: Seq<char>) -> Result<u8, FenError> {
    if s.len() != 2 {
        Err(FenError::SquareLenghtIsnt2Wide(s.len() as usize))
    } else {
        match file_of_letter(s[0]) {
            None => Err(FenError::InvalidFile(ascii_lower(s[0]))),
            Some(file) => match rank_of_digit(s[1]) {
                None => Err(FenError::InvalidRank(ascii_lower(s[1]))),
                Some(rank) => Ok((rank * 8 + file) as u8),
            },
        }
    }
}

/// What the en passant field `s` says: no square for `-`, else the square
/// that it names.
pub open spec fn spec_en_passant_field(s: Seq<char>) -> Result<Option<Square>, FenError> {
    if s == seq!['-'] {
        Ok(None)
    } else {
        match spec_square_from_string(s) {
            Ok(sq) => Ok(Some(sq)),
            Err(e) => Err(e),
        }
    }
}

/// What the side field `s` says: `w` for White, `b` for Black.
pub open spec fn spec_side_field(s: Seq<char>) -> Result<Side, FenError> {
    if s == seq!['w'] {
        Ok(Side::White)
    } else if s == seq!['b'] {
        Ok(Side::Black)
    } else {
        Err(FenError::NotAValideSide)
    }
}

/// Whether `c` names a castling right: `K` and `Q` for White's king side and
/// queen side, `k` and `q` for Black's.
pub open spec fn is_castling_letter(c: char) -> bool {
    c == 'K' || c == 'Q' || c == 'k' || c == 'q'
}

/// The place of the first character of `s` that names no castling right, or
/// the length of `s` where every character names one.
pub open spec fn first_bad_castling_letter(s: Seq<char>) -> int
    decreases s.len(),
{
    if s.len() == 0 || !is_castling_letter(s[0]) {
        0
    } else {
        1 + first_bad_castling_letter(s.drop_first())
    }
}

/// What the castling field `s` says: no right for `-`; else the rights
/// whose letters occur in it, with the first character that names no right
/// as the error.
pub open spec fn spec_castling_field(s: Seq<char>) -> Result<Seq<bool>, FenError> {
    if s == seq!['-'] {
        Ok(seq![false, false, false, false])
    } else {
        let bad = first_bad_castling_letter(s);
        if bad < s.len() {
            Err(FenError::InvalidCastlingRights(s[bad]))
        } else {
            Ok(seq![s.contains('K'), s.contains('Q'), s.contains('k'), s.contains('q')])
        }
    }
}

/// The number that the digit `c` stands for.
pub open spec fn digit_value(c: char) -> Option<u8> {
    if '0' <= c && c <= '9' {
        Some(((c as u8) - 48) as u8)
    } else {
        None
    }
}

/// The piece that the letter `c` stands for: `K Q R B N P` for White's
/// pieces and `k q r b n p` for Black's.
pub open spec fn piece_of_letter(c: char) -> Option<ColoredPiece> {
    if c == 'K' {
        Some(ColoredPiece { piece: Piece::King, side: Side::White })
    } else if c == 'Q' {
        Some(ColoredPiece { piece: Piece::Queen, side: Side::White })
    } else if c == 'R' {
        Some(ColoredPiece { piece: Piece::Rook, side: Side::White })
    } else if c == 'B' {
        Some(ColoredPiece { piece: Piece::Bishop, side: Side::White })
    } else if c == 'N' {
        Some(ColoredPiece { piece: Piece::Knight, side: Side::White })
    } else if c == 'P' {
        Some(ColoredPiece { piece: Piece::Pawn, side: Side::White })
    } else if c == 'k' {
        Some(ColoredPiece { piece: Piece::King, side: Side::Black })
    } else if c == 'q' {
        Some(ColoredPiece { piece: Piece::Queen, side: Side::Black })
    } else if c == 'r' {
        Some(ColoredPiece { piece: Piece::Rook, side: Side::Black })
    } else if c == 'b' {
        Some(ColoredPiece { piece: Piece::Bishop, side: Side::Black })
    } else if c == 'n' {
        Some(ColoredPiece { piece: Piece::Knight, side: Side::Black })
    } else if c == 'p' {
        Some(ColoredPiece { piece: Piece::Pawn, side: Side::Black })
    } else {
        None
    }
}

/// The board with no piece on it.
pub open spec fn empty_board() -> Seq<Option<ColoredPiece>> {
    Seq::new(64, |i: int| None)
}

/// The board that the placement `s` leaves when it is read onto `board`
/// from file `file` of rank `rank` on. A `/` goes to the first file of the
/// rank below, and stays on the lowest rank where there is none below. A
/// digit passes over that many files and may not pass the end of the rank.
/// Any other character must be a piece letter and puts its piece on the
/// current file, which must be one of the eight, and goes to the next file.
pub open spec fn placement_onto(
    s: Seq<char>,
    board: Seq<Option<ColoredPiece>>,
    file: int,
    rank: int,
) -> Result<Seq<Option<ColoredPiece>>, FenError>
    decreases s.len(),
{
    if s.len() == 0 {
        Ok(board)
    } else {
        let c = s[0];
        if c == '/' {
            placement_onto(
                s.drop_first(),
                board,
                0,
                if rank > 0 {
                    rank - 1
                } else {
                    0
                },
            )
        } else {
            match digit_value(c) {
                Some(d) => if file + d > 8 {
                    Err(FenError::OutOfBounds((file + d) as u8))
                } else {
                    placement_onto(s.drop_first(), board, file + d, rank)
                },
                None => match piece_of_letter(c) {
                    None => Err(FenError::InvalidPieceChar(c)),
                    Some(piece) => if file > 7 {
                        Err(FenError::OutOfBounds(file as u8))
                    } else {
                        placement_onto(
                            s.drop_first(),
                            board.update(rank * 8 + file, Some(piece)),
                            file + 1,
                            rank,
                        )
                    },
                },
            }
        }
    }
}

/// The board that the placement field `s` describes: its ranks from the
/// eighth down, each from the first file on, read onto the empty board.
pub open spec fn spec_placement(s: Seq<char>) -> Result<Seq<Option<ColoredPiece>>, FenError> {
    placement_onto(s, empty_board(), 0, 7)
}

/// The first square from `from` on that holds the king of `side`, or that
/// side's home square where none does.
pub open spec fn king_square_from(board: Seq<Option<ColoredPiece>>, side: Side, from: int) -> Square
    decreases 64 - from,
{
    if from < 0 || from >= 64 {
        side.spec_king_home()
    } else if board[from] == Some(ColoredPiece { piece: Piece::King, side }) {
        from as u8
    } else {
        king_square_from(board, side, from + 1)
    }
}

/// The position that the string `fen` describes. It must have six fields.
/// The fourth, the en passant square, is read first, then the second, the
/// side to move, then the third, the castling rights, then the first, the
/// placement; the first that is malformed gives the error. The two counters
/// at the end are not read. The kings' squares are taken from the board.
pub open spec fn spec_position_from_fen(fen: Seq<char>) -> Result<PositionView, FenError> {
    let fields = fen_fields(fen);
    if fields.len() != 6 {
        Err(FenError::MissingFenParts)
    } else {
        match spec_en_passant_field(fields[3]) {
            Err(e) => Err(e),
            Ok(en_passant) => match spec_side_field(fields[1]) {
                Err(e) => Err(e),
                Ok(side_to_move) => match spec_castling_field(fields[2]) {
                    Err(e) => Err(e),
                    Ok(castle) => match spec_placement(fields[0]) {
                        Err(e) => Err(e),
                        Ok(board) => Ok(
                            PositionView {
                                board,
                                side_to_move,
                                castle,
                                en_passant,
                                king_squares: seq![
                                    king_square_from(board, Side::White, 0),
                                    king_square_from(board, Side::Black, 0),
                                ],
                            },
                        ),
                    },
                },
            },
        }
    }
}

/// What the decoder returned, with the position as its view.
pub open spec fn fen_view(res: Result<Position, FenError>) -> Result<PositionView, FenError> {
    match res {
        Ok(position) => Ok(position@),
        Err(e) => Err(e),
    }
}

/// The fields collected so far, each as a sequence.
pub open spec fn fields_view(fields: Seq<Vec<char>>) -> Seq<Seq<char>> {
    Seq::new(fields.len(), |i: int| fields[i]@)
}

/// The characters of `s`.
fn chars_of(s: &str) -> (chars: Vec<char>)
    ensures
        chars@ == s@,
{
    let n = s.unicode_len();
    let mut chars: Vec<char> = Vec::new();
    let mut i: usize = 0;
    while i < n
        invariant
            i <= n,
            n == s@.len(),
            chars@ == s@.subrange(0, i as int),
        decreases n - i,
    {
        let c = s.get_char(i);
        assert(chars@.push(c) =~= s@.subrange(0, i + 1));
        chars.push(c);
        i += 1;
    }
    assert(s@.subrange(0, n as int) =~= s@);
    chars
}

/// Whether `c` is a white space character.
fn is_space(c: char) -> (res: bool)
    ensures
        res == is_fen_space(c),
{
    let code: u32 = c as u32;
    (0x09 <= code && code <= 0x0D) || code == 0x20 || code == 0x85 || code == 0xA0 || code
        == 0x1680 || (0x2000 <= code && code <= 0x200A) || code == 0x2028 || code == 0x2029
        || code == 0x202F || code == 0x205F || code == 0x3000
}

/// Splits `chars` into its fields.
fn split_fields(chars: &Vec<char>) -> (fields: Vec<Vec<char>>)
    ensures
        fields_view(fields@) == fen_fields(chars@),
{
    let mut fields: Vec<Vec<char>> = Vec::new();
    let mut current: Vec<char> = Vec::new();
    let mut in_field = false;
    let mut i: usize = 0;
    assert(chars@.take(0) =~= Seq::<char>::empty());
    assert(fields_view(fields@) =~= Seq::<Seq<char>>::empty());
    while i < chars.len()
        invariant
            i <= chars.len(),
            in_field == (i > 0 && !is_fen_space(chars@[i - 1])),
            in_field ==> current@.len() > 0,
            fen_fields(chars@.take(i as int)) == (if in_field {
                fields_view(fields@).push(current@)
            } else {
                fields_view(fields@)
            }),
        decreases chars.len() - i,
    {
        let c = chars[i];
        let ghost before = chars@.take(i as int);
        let ghost now = chars@.take(i + 1);
        assert(now.drop_last() =~= before);
        assert(now.last() == c);
        if is_space(c) {
            if in_field {
                let ghost old_fields = fields@;
                fields.push(current);
                assert(fields_view(fields@) =~= fields_view(old_fields).push(current@));
                current = Vec::new();
            }
            in_field = false;
        } else {
            if in_field {
                let ghost old_current = current@;
                current.push(c);
                assert(fields_view(fields@).push(old_current).drop_last() =~= fields_view(
                    fields@,
                ));
            } else {
                current = Vec::new();
                current.push(c);
                assert(current@ =~= seq![c]);
            }
            in_field = true;
        }
        i += 1;
    }
    assert(chars@.take(chars.len() as int) =~= chars@);
    if in_field {
        let ghost old_fields = fields@;
        fields.push(current);
        assert(fields_view(fields@) =~= fields_view(old_fields).push(current@));
    }
    fields
}

/// The letter `c` in lower case where it is one of `A` to `Z`.
fn to_lower(c: char) -> (l: char)
    ensures
        l == ascii_lower(c),
{
    if c >= 'A' && c <= 'Z' {
        ((c as u8) + 32) as char
    } else {
        c
    }
}

/// The square that `chars` names in algebraic notation.
fn square_from_chars(chars: &Vec<char>) -> (res: Result<u8, FenError>)
    ensures
        res == spec_square_from_string(chars@),
{
    if chars.len() != 2 {
        return Err(FenError::SquareLenghtIsnt2Wide(chars.len()));
    }
    let file_letter = to_lower(chars[0]);
    if !(file_letter >= 'a' && file_letter <= 'h') {
        return Err(FenError::InvalidFile(file_letter));
    }
    let file: u8 = (file_letter as u8) - 97;

    let rank_digit = chars[1];
    if !(rank_digit >= '1' && rank_digit <= '8') {
        return Err(FenError::InvalidRank(to_lower(rank_digit)));
    }
    let rank: u8 = (rank_digit as u8) - 49;

    let square_index: u8 = rank * 8 + file;
    Ok(square_index)
}

/// The square that `square_string` names in algebraic notation, such as
/// `e3`: the letter of its file, in either case, and the digit of its rank.
pub fn convert_square_string_to_square(square_string: &str) -> (res: Result<u8, FenError>)
    ensures
        res == spec_square_from_string(square_string@),
        res is Ok ==> res->Ok_0 <= 63,
{
    let chars = chars_of(square_string);
    square_from_chars(&chars)
}

/// Whether `chars` is the one character `c`.
fn is_single(chars: &Vec<char>, c: char) -> (res: bool)
    ensures
        res == (chars@ == seq![c]),
{
    if chars.len() == 1 && chars[0] == c {
        assert(chars@ =~= seq![c]);
        true
    } else {
        assert(seq![c].len() == 1 && seq![c][0] == c);
        false
    }
}

/// Reads the castling field.
fn castling_from_chars(chars: &Vec<char>) -> (res: Result<[bool; 4], FenError>)
    ensures
        match res {
            Ok(castle) => spec_castling_field(chars@) == Ok::<Seq<bool>, FenError>(castle@),
            Err(e) => spec_castling_field(chars@) == Err::<Seq<bool>, FenError>(e),
        },
{
    let mut castle: [bool; 4] = [false;4];
    if is_single(chars, '-') {
        assert(castle@ =~= seq![false, false, false, false]);
        return Ok(castle);
    }
    let mut i: usize = 0;
    assert(chars@.skip(0) =~= chars@);
    while i < chars.len()
        invariant
            i <= chars.len(),
            chars@ != seq!['-'],
            first_bad_castling_letter(chars@) == i + first_bad_castling_letter(
                chars@.skip(i as int),
            ),
            castle@.len() == 4,
            castle@[0] == chars@.take(i as int).contains('K'),
            castle@[1] == chars@.take(i as int).contains('Q'),
            castle@[2] == chars@.take(i as int).contains('k'),
            castle@[3] == chars@.take(i as int).contains('q'),
        decreases chars.len() - i,
    {
        let c = chars[i];
        let ghost before = chars@.take(i as int);
        let ghost now = chars@.take(i + 1);
        assert(chars@.skip(i as int)[0] == c);
        assert(chars@.skip(i as int).drop_first() =~= chars@.skip(i + 1));
        assert(now =~= before.push(c));
        assert(forall|x: char| now.contains(x) <==> before.contains(x) || x == c) by {
            assert forall|x: char| now.contains(x) implies before.contains(x) || x == c by {
                let j = choose|j: int| 0 <= j < now.len() && now[j] == x;
                if j < before.len() {
                    assert(before[j] == x);
                }
            }
            assert forall|x: char| before.contains(x) || x == c implies now.contains(x) by {
                if before.contains(x) {
                    let j = choose|j: int| 0 <= j < before.len() && before[j] == x;
                    assert(now[j] == x);
                } else {
                    assert(now[i as int] == x);
                }
            }
        }
        if c == 'K' {
            castle[0] = true;
        } else if c == 'Q' {
            castle[1] = true;
        } else if c == 'k' {
            castle[2] = true;
        } else if c == 'q' {
            castle[3] = true;
        } else {
            assert(first_bad_castling_letter(chars@.skip(i as int)) == 0);
            return Err(FenError::InvalidCastlingRights(c));
        }
        i += 1;
    }
    assert(chars@.take(chars.len() as int) =~= chars@);
    assert(chars@.skip(chars.len() as int) =~= Seq::<char>::empty());
    assert(castle@ =~= seq![
        chars@.contains('K'),
        chars@.contains('Q'),
        chars@.contains('k'),
        chars@.contains('q'),
    ]);
    Ok(castle)
}

/// The piece that the letter `c` stands for.
fn piece_from_letter(c: char) -> (res: Option<ColoredPiece>)
    ensures
        res == piece_of_letter(c),
{
    let piece_side = if c >= 'A' && c <= 'Z' {
        Side::White
    } else {
        Side::Black
    };
    let piece_type = match to_lower(c) {
        'k' => Piece::King,
        'p' => Piece::Pawn,
        'n' => Piece::Knight,
        'b' => Piece::Bishop,
        'r' => Piece::Rook,
        'q' => Piece::Queen,
        _ => return None,
    };
    Some(ColoredPiece { piece: piece_type, side: piece_side })
}

/// Reads the placement field.
fn placement_from_chars(chars: &Vec<char>) -> (res: Result<[Option<ColoredPiece>; 64], FenError>)
    ensures
        match res {
            Ok(board) => spec_placement(chars@) == Ok::<Seq<Option<ColoredPiece>>, FenError>(
                board@,
            ),
            Err(e) => spec_placement(chars@) == Err::<Seq<Option<ColoredPiece>>, FenError>(e),
        },
{
    let mut board: [Option<ColoredPiece>; 64] = [None;64];
    let mut current_rank: u8 = 7;
    let mut file: u8 = 0;
    let mut i: usize = 0;
    assert(board@ =~= empty_board());
    assert(chars@.skip(0) =~= chars@);
    while i < chars.len()
        invariant
            i <= chars.len(),
            current_rank <= 7,
            file <= 8,
            spec_placement(chars@) == placement_onto(
                chars@.skip(i as int),
                board@,
                file as int,
                current_rank as int,
            ),
        decreases chars.len() - i,
    {
        let c = chars[i];
        assert(chars@.skip(i as int)[0] == c);
        assert(chars@.skip(i as int).drop_first() =~= chars@.skip(i + 1));
        if c == '/' {
            file = 0;
            if current_rank > 0 {
                current_rank -= 1;
            }
        } else if c >= '0' && c <= '9' {
            let digit: u8 = (c as u8) - 48;
            if file + digit > 8 {
                return Err(FenError::OutOfBounds(file + digit));
            }
            file += digit;
        } else {
            let piece = match piece_from_letter(c) {
                Some(p) => p,
                None => return Err(FenError::InvalidPieceChar(c)),
            };
            if file > 7 {
                return Err(FenError::OutOfBounds(file));
            }
            let target_square = crate::square(file, current_rank);
            board[target_square as usize] = Some(piece);
            file += 1;
        }
        i += 1;
    }
    assert(chars@.skip(chars.len() as int) =~= Seq::<char>::empty());
    Ok(board)
}

/// The first square from `from` on that holds the king of `side`.
fn find_king(board: &[Option<ColoredPiece>; 64], side: Side) -> (sq: Square)
    ensures
        sq == king_square_from(board@, side, 0),
{
    let mut i: u8 = 0;
    while i < 64
        invariant
            i <= 64,
            king_square_from(board@, side, 0) == king_square_from(board@, side, i as int),
        decreases 64 - i,
    {
        if let Some(p) = board[i as usize] {
            if p.piece == Piece::King && p.side == side {
                return i;
            }
        }
        i += 1;
    }
    side.king_home()
}

/// Decodes a position from its six space-separated fields: the placement of
/// the pieces, the side to move, the castling rights, the en passant square,
/// and two counters, which are not read.
pub fn load_position_from_fen(fen: &str) -> (res: Result<Position, FenError>)
    ensures
        fen_view(res) == spec_position_from_fen(fen@),
{
    let chars = chars_of(fen);
    let fen_parts = split_fields(&chars);

    if fen_parts.len() != 6 {
        return Err(FenError::MissingFenParts);
    }
    let ghost fields = fen_fields(fen@);
    assert(fields[0] == fen_parts@[0]@);
    assert(fields[1] == fen_parts@[1]@);
    assert(fields[2] == fen_parts@[2]@);
    assert(fields[3] == fen_parts@[3]@);

    let mut en_passant: Option<Square> = None;
    if !is_single(&fen_parts[3], '-') {
        match square_from_chars(&fen_parts[3]) {
            Ok(x) => {
                en_passant = Some(x);
            },
            Err(x) => return Err(x),
        }
    }

    let side_to_move = if is_single(&fen_parts[1], 'w') {
        Side::White
    } else if is_single(&fen_parts[1], 'b') {
        Side::Black
    } else {
        return Err(FenError::NotAValideSide);
    };

    let castle = match castling_from_chars(&fen_parts[2]) {
        Ok(x) => x,
        Err(x) => return Err(x),
    };

    let board = match placement_from_chars(&fen_parts[0]) {
        Ok(x) => x,
        Err(x) => return Err(x),
    };

    let white_king = find_king(&board, Side::White);
    let black_king = find_king(&board, Side::Black);
    let king_squares: [Square; 2] = [white_king, black_king];
    assert(king_squares@ =~= seq![white_king, black_king]);

    Ok(Position { board, side_to_move, castle, en_passant, king_squares })
}

/// Whether `field` has a character and none that is white space.
pub open spec fn is_word(field: Seq<char>) -> bool {
    field.len() > 0 && forall|j: int| 0 <= j < field.len() ==> !is_fen_space(#[trigger] field[j])
}

/// Every field of a string has a character and none that is white space, and
/// a string without white space is its own single field.
pub proof fn lemma_fields_are_words(s: Seq<char>)
    ensures
        forall|i: int| 0 <= i < fen_fields(s).len() ==> is_word(#[trigger] fen_fields(s)[i]),
        is_word(s) ==> fen_fields(s) == seq![s],
    decreases s.len(),
{
    if s.len() > 0 {
        let before = fen_fields(s.drop_last());
        lemma_fields_are_words(s.drop_last());
        if !is_fen_space(s.last()) {
            if s.len() >= 2 && !is_fen_space(s[s.len() - 2]) && before.len() > 0 {
                let grown = before.last().push(s.last());
                assert(is_word(before[before.len() - 1]));
                assert(is_word(grown)) by {
                    assert forall|j: int| 0 <= j < grown.len() implies !is_fen_space(
                        #[trigger] grown[j],
                    ) by {
                        if j < before.last().len() {
                            assert(grown[j] == before.last()[j]);
                        }
                    }
                }
                assert forall|i: int| 0 <= i < fen_fields(s).len() implies is_word(
                    #[trigger] fen_fields(s)[i],
                ) by {
                    if i < before.len() - 1 {
                        assert(fen_fields(s)[i] == before[i]);
                    }
                }
            } else {
                assert(is_word(seq![s.last()]));
                assert forall|i: int| 0 <= i < fen_fields(s).len() implies is_word(
                    #[trigger] fen_fields(s)[i],
                ) by {
                    if i < before.len() {
                        assert(fen_fields(s)[i] == before[i]);
                    }
                }
            }
        }
        if is_word(s) {
            if s.len() == 1 {
                assert(s.drop_last().len() == 0);
                assert(before.len() == 0);
                assert(seq![s.last()] =~= s);
                assert(before.push(s) =~= seq![s]);
            } else {
                assert(is_word(s.drop_last())) by {
                    assert forall|j: int| 0 <= j < s.drop_last().len() implies !is_fen_space(
                        #[trigger] s.drop_last()[j],
                    ) by {
                        assert(s.drop_last()[j] == s[j]);
                    }
                }
                assert(before == seq![s.drop_last()]);
                assert(!is_fen_space(s[s.len() - 2]));
                assert(before.last() == s.drop_last());
                assert(before.drop_last() =~= Seq::<Seq<char>>::empty());
                assert(s.drop_last().push(s.last()) =~= s);
                assert(before.drop_last().push(s) =~= seq![s]);
            }
        }
    }
}

} // verus!
