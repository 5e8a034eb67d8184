use chrust_core::errors::FenError;
use chrust_core::position::{convert_square_string_to_square, load_position_from_fen};
use chrust_core::{ColoredPiece, Piece, Side};

const START: &str = "rnbqkbnr/pppppppp/8/8/8/8/PPPPPPPP/RNBQKBNR w KQkq - 0 1";

fn piece(piece: Piece, side: Side) -> Option<ColoredPiece> {
    Some(ColoredPiece { piece, side })
}

#[test]
fn fen_start_position_board() {
    let pos = load_position_from_fen(START).unwrap();

    let back = [
        Piece::Rook,
        Piece::Knight,
        Piece::Bishop,
        Piece::Queen,
        Piece::King,
        Piece::Bishop,
        Piece::Knight,
        Piece::Rook,
    ];
    for file in 0..8 {
        assert_eq!(pos.board[file], piece(back[file], Side::White));
        assert_eq!(pos.board[8 + file], piece(Piece::Pawn, Side::White));
        assert_eq!(pos.board[48 + file], piece(Piece::Pawn, Side::Black));
        assert_eq!(pos.board[56 + file], piece(back[file], Side::Black));
    }
    for square in 16..48 {
        assert_eq!(pos.board[square], None);
    }
}

#[test]
fn fen_start_position_state() {
    let pos = load_position_from_fen(START).unwrap();

    assert_eq!(pos.side_to_move, Side::White);
    assert_eq!(pos.castle, [true, true, true, true]);
    assert_eq!(pos.en_passant, None);
    assert_eq!(pos.king_squares, [4, 60]);
}

#[test]
fn fen_reads_side_castling_and_en_passant() {
    let pos =
        load_position_from_fen("rnbqkbnr/pppp1ppp/8/4p3/4P3/8/PPPP1PPP/RNBQKBNR b Kq e3 0 2")
            .unwrap();

    assert_eq!(pos.side_to_move, Side::Black);
    assert_eq!(pos.castle, [true, false, false, true]);
    assert_eq!(pos.en_passant, Some(20));
    assert_eq!(pos.board[28], piece(Piece::Pawn, Side::White));
    assert_eq!(pos.board[36], piece(Piece::Pawn, Side::Black));
    assert_eq!(pos.board[12], None);
    assert_eq!(pos.board[52], None);
}

#[test]
fn fen_finds_the_kings() {
    let pos = load_position_from_fen("1q3P1P/6k1/5P1P/4b3/8/p1p5/1K6/2p5 w - - 0 1").unwrap();

    assert_eq!(pos.king_squares, [9, 54]);
    assert_eq!(pos.castle, [false, false, false, false]);
    assert_eq!(pos.board[57], piece(Piece::Queen, Side::Black));
    assert_eq!(pos.board[61], piece(Piece::Pawn, Side::White));
    assert_eq!(pos.board[63], piece(Piece::Pawn, Side::White));
    assert_eq!(pos.board[2], piece(Piece::Pawn, Side::Black));
}

#[test]
fn fen_without_kings_records_the_home_squares() {
    let pos = load_position_from_fen("8/8/8/8/8/8/8/8 w - - 0 1").unwrap();

    assert_eq!(pos.king_squares, [4, 60]);
    assert!(pos.board.iter().all(|slot| slot.is_none()));
}

#[test]
fn fen_fields_may_be_separated_by_any_white_space() {
    let pos = load_position_from_fen("  8/8/8/8/8/8/8/R7\tb \n - \u{a0} a6   12  40 ").unwrap();

    assert_eq!(pos.side_to_move, Side::Black);
    assert_eq!(pos.en_passant, Some(40));
    assert_eq!(pos.board[0], piece(Piece::Rook, Side::White));
}

#[test]
fn fen_short_ranks_and_missing_ranks_are_accepted() {
    let pos = load_position_from_fen("k/2Q w - - 0 1").unwrap();

    assert_eq!(pos.board[56], piece(Piece::King, Side::Black));
    assert_eq!(pos.board[50], piece(Piece::Queen, Side::White));
    assert_eq!(pos.king_squares, [4, 56]);
}

#[test]
fn fen_ranks_after_the_eighth_go_to_the_first_rank() {
    let pos = load_position_from_fen("8/8/8/8/8/8/8/R7/1N6 w - - 0 1").unwrap();

    assert_eq!(pos.board[0], piece(Piece::Rook, Side::White));
    assert_eq!(pos.board[1], piece(Piece::Knight, Side::White));
}

#[test]
fn fen_wrong_field_count() {
    assert_eq!(
        load_position_from_fen("8/8/8/8/8/8/8/8 w - -").unwrap_err(),
        FenError::MissingFenParts
    );
    assert_eq!(
        load_position_from_fen("").unwrap_err(),
        FenError::MissingFenParts
    );
    assert_eq!(
        load_position_from_fen("8/8/8/8/8/8/8/8 w - - 0 1 extra").unwrap_err(),
        FenError::MissingFenParts
    );
}

#[test]
fn fen_unknown_side() {
    assert_eq!(
        load_position_from_fen("8/8/8/8/8/8/8/8 x - - 0 1").unwrap_err(),
        FenError::NotAValideSide
    );
    assert_eq!(
        load_position_from_fen("8/8/8/8/8/8/8/8 W - - 0 1").unwrap_err(),
        FenError::NotAValideSide
    );
}

#[test]
fn fen_invalid_piece_letter() {
    assert_eq!(
        load_position_from_fen("8/8/8/3x4/8/8/8/8 w - - 0 1").unwrap_err(),
        FenError::InvalidPieceChar('x')
    );
}

#[test]
fn fen_invalid_castling_letter() {
    assert_eq!(
        load_position_from_fen("8/8/8/8/8/8/8/8 w KQxq - 0 1").unwrap_err(),
        FenError::InvalidCastlingRights('x')
    );
    assert_eq!(
        load_position_from_fen("8/8/8/8/8/8/8/8 w K- - 0 1").unwrap_err(),
        FenError::InvalidCastlingRights('-')
    );
}

#[test]
fn fen_rank_that_is_too_long() {
    assert_eq!(
        load_position_from_fen("9/8/8/8/8/8/8/8 w - - 0 1").unwrap_err(),
        FenError::OutOfBounds(9)
    );
    assert_eq!(
        load_position_from_fen("8/8/8/8/8/8/8/7PP w - - 0 1").unwrap_err(),
        FenError::OutOfBounds(8)
    );
    assert_eq!(
        load_position_from_fen("8/8/8/8/8/8/8/4P4 w - - 0 1").unwrap_err(),
        FenError::OutOfBounds(9)
    );
}

#[test]
fn fen_en_passant_errors() {
    assert_eq!(
        load_position_from_fen("8/8/8/8/8/8/8/8 w - e33 0 1").unwrap_err(),
        FenError::SquareLenghtIsnt2Wide(3)
    );
    assert_eq!(
        load_position_from_fen("8/8/8/8/8/8/8/8 w - z3 0 1").unwrap_err(),
        FenError::InvalidFile('z')
    );
    assert_eq!(
        load_position_from_fen("8/8/8/8/8/8/8/8 w - e9 0 1").unwrap_err(),
        FenError::InvalidRank('9')
    );
}

#[test]
fn fen_en_passant_is_checked_before_side_and_placement() {
    assert_eq!(
        load_position_from_fen("x x x z3 0 1").unwrap_err(),
        FenError::InvalidFile('z')
    );
    assert_eq!(
        load_position_from_fen("x x x - 0 1").unwrap_err(),
        FenError::NotAValideSide
    );
    assert_eq!(
        load_position_from_fen("x w x - 0 1").unwrap_err(),
        FenError::InvalidCastlingRights('x')
    );
    assert_eq!(
        load_position_from_fen("x w - - 0 1").unwrap_err(),
        FenError::InvalidPieceChar('x')
    );
}

#[test]
fn square_strings_name_squares() {
    assert_eq!(convert_square_string_to_square("a1").unwrap(), 0);
    assert_eq!(convert_square_string_to_square("h1").unwrap(), 7);
    assert_eq!(convert_square_string_to_square("e3").unwrap(), 20);
    assert_eq!(convert_square_string_to_square("a8").unwrap(), 56);
    assert_eq!(convert_square_string_to_square("h8").unwrap(), 63);
    assert_eq!(convert_square_string_to_square("E3").unwrap(), 20);
}

#[test]
fn square_strings_of_wrong_width() {
    assert_eq!(
        convert_square_string_to_square("").unwrap_err(),
        FenError::SquareLenghtIsnt2Wide(0)
    );
    assert_eq!(
        convert_square_string_to_square("e").unwrap_err(),
        FenError::SquareLenghtIsnt2Wide(1)
    );
    assert_eq!(
        convert_square_string_to_square("e33").unwrap_err(),
        FenError::SquareLenghtIsnt2Wide(3)
    );
}

#[test]
fn square_strings_with_wrong_letters() {
    assert_eq!(
        convert_square_string_to_square("i1").unwrap_err(),
        FenError::InvalidFile('i')
    );
    assert_eq!(
        convert_square_string_to_square("Z1").unwrap_err(),
        FenError::InvalidFile('z')
    );
    assert_eq!(
        convert_square_string_to_square("11").unwrap_err(),
        FenError::InvalidFile('1')
    );
    assert_eq!(
        convert_square_string_to_square("a0").unwrap_err(),
        FenError::InvalidRank('0')
    );
    assert_eq!(
        convert_square_string_to_square("a9").unwrap_err(),
        FenError::InvalidRank('9')
    );
    assert_eq!(
        convert_square_string_to_square("aB").unwrap_err(),
        FenError::InvalidRank('b')
    );
}
