use chrust_core::position::{load_position_from_fen, Position};
use chrust_core::{rank, square, CastleRigth, ColoredPiece, Piece, Side};

const START: &str = "rnbqkbnr/pppppppp/8/8/8/8/PPPPPPPP/RNBQKBNR w KQkq - 0 1";

fn empty_position() -> Position {
    Position {
        board: [None; 64],
        side_to_move: Side::White,
        castle: [false; 4],
        en_passant: None,
        king_squares: [4, 60],
    }
}

#[test]
fn coordinates_exact_values() {
    assert_eq!(chrust_core::file(0), 0);
    assert_eq!(rank(0), 0);
    assert_eq!(chrust_core::file(7), 7);
    assert_eq!(rank(7), 0);
    assert_eq!(chrust_core::file(8), 0);
    assert_eq!(rank(8), 1);
    assert_eq!(chrust_core::file(28), 4);
    assert_eq!(rank(28), 3);
    assert_eq!(chrust_core::file(63), 7);
    assert_eq!(rank(63), 7);
    assert_eq!(square(0, 0), 0);
    assert_eq!(square(7, 0), 7);
    assert_eq!(square(4, 3), 28);
    assert_eq!(square(0, 7), 56);
    assert_eq!(square(7, 7), 63);
}

#[test]
fn coordinates_round_trip_on_every_square() {
    for s in 0..64u8 {
        assert_eq!(square(chrust_core::file(s), rank(s)), s);
        assert_eq!(rank(square(chrust_core::file(s), rank(s))), rank(s));
        assert_eq!(chrust_core::file(square(chrust_core::file(s), rank(s))), chrust_core::file(s));
    }
    for f in 0..8u8 {
        for r in 0..8u8 {
            assert_eq!(chrust_core::file(square(f, r)), f);
            assert_eq!(rank(square(f, r)), r);
        }
    }
}

#[test]
fn piece_letters() {
    let kinds = [
        (Piece::King, 'K', 'k'),
        (Piece::Queen, 'Q', 'q'),
        (Piece::Rook, 'R', 'r'),
        (Piece::Bishop, 'B', 'b'),
        (Piece::Knight, 'N', 'n'),
        (Piece::Pawn, 'P', 'p'),
    ];
    for (piece, white, black) in kinds {
        assert_eq!(
            ColoredPiece {
                piece,
                side: Side::White
            }
            .to_char(),
            white
        );
        assert_eq!(
            ColoredPiece {
                piece,
                side: Side::Black
            }
            .to_char(),
            black
        );
    }
}

#[test]
fn sides_and_castling_rights() {
    assert_eq!(Side::White.opponent(), Side::Black);
    assert_eq!(Side::Black.opponent(), Side::White);
    assert_eq!(Side::White.index(), 0);
    assert_eq!(Side::Black.index(), 1);
    assert_eq!(Side::White.king_home(), 4);
    assert_eq!(Side::Black.king_home(), 60);
    assert_eq!(CastleRigth::WK.index(), 0);
    assert_eq!(CastleRigth::WQ.index(), 1);
    assert_eq!(CastleRigth::BK.index(), 2);
    assert_eq!(CastleRigth::BQ.index(), 3);
    assert_eq!(CastleRigth::king_side(Side::White), CastleRigth::WK);
    assert_eq!(CastleRigth::king_side(Side::Black), CastleRigth::BK);
    assert_eq!(CastleRigth::queen_side(Side::White), CastleRigth::WQ);
    assert_eq!(CastleRigth::queen_side(Side::Black), CastleRigth::BQ);
}

#[test]
fn placement_of_the_start_position() {
    let pos = load_position_from_fen(START).unwrap();
    assert_eq!(
        pos.placement(),
        "rnbqkbnr/pppppppp/8/8/8/8/PPPPPPPP/RNBQKBNR"
    );
}

#[test]
fn placement_of_the_empty_board() {
    assert_eq!(empty_position().placement(), "8/8/8/8/8/8/8/8");
}

#[test]
fn placement_counts_runs_of_empty_squares() {
    let mut pos = empty_position();
    pos.board[0] = Some(ColoredPiece {
        piece: Piece::Rook,
        side: Side::White,
    });
    pos.board[7] = Some(ColoredPiece {
        piece: Piece::King,
        side: Side::White,
    });
    pos.board[27] = Some(ColoredPiece {
        piece: Piece::Pawn,
        side: Side::Black,
    });
    pos.board[28] = Some(ColoredPiece {
        piece: Piece::Knight,
        side: Side::White,
    });
    pos.board[63] = Some(ColoredPiece {
        piece: Piece::Queen,
        side: Side::Black,
    });
    assert_eq!(pos.placement(), "7q/8/8/8/3pN3/8/8/R6K");
}

#[test]
fn placement_round_trip() {
    let fens = [
        START,
        "1q3P1P/6k1/5P1P/4b3/8/p1p5/1K6/2p5 w - - 0 1",
        "8/8/8/8/8/8/8/8 b - - 0 1",
        "r3k2r/8/8/8/8/8/8/R3K2R w KQkq - 0 1",
        "pppppppp/PPPPPPPP/nnnnnnnn/NNNNNNNN/bbbbbbbb/BBBBBBBB/qqqqqqqq/QQQQQQQQ w - - 0 1",
    ];
    for fen in fens {
        let pos = load_position_from_fen(fen).unwrap();
        let written = format!("{} w - - 0 1", pos.placement());
        let again = load_position_from_fen(&written).unwrap();
        assert_eq!(again.board, pos.board);
        assert_eq!(pos.placement(), fen.split(' ').next().unwrap());
    }
}

#[test]
fn board_text_of_the_start_position() {
    let pos = load_position_from_fen(START).unwrap();
    let expected = [
        " r n b q k b n r\n",
        " p p p p p p p p\n",
        "                \n",
        "                \n",
        "                \n",
        "                \n",
        " P P P P P P P P\n",
        " R N B Q K B N R\n",
    ];
    assert_eq!(pos.board_text(), expected.concat());
}

#[test]
fn board_text_of_the_empty_board() {
    let line = "                \n";
    assert_eq!(empty_position().board_text(), line.repeat(8));
}
