use chrust_core::errors::ChessError;
use chrust_core::position::Position;
use chrust_core::{ColoredPiece, Piece, Side, Square};

fn empty_position() -> Position {
    Position {
        board: [None; 64],
        side_to_move: Side::White,
        castle: [false; 4],
        en_passant: None,
        king_squares: [4, 60],
    }
}

fn has_square(squares: &[Square], square: Square) -> bool {
    squares.iter().any(|&s| s == square)
}

#[test]
fn is_square_attacked_empty_square_none() {
    let pos = empty_position();

    assert_eq!(pos.is_square_attacked(35, Side::White), Ok(None));
}

#[test]
fn check_is_square_attacked_out_of_bounds() {
    let pos = empty_position();

    assert_eq!(
        pos.is_square_attacked(65, Side::White),
        Err(ChessError::NotASquareOnBoard { square: 65 })
    );
}

#[test]
fn check_is_square_attacked_empty_board_none() {
    let mut pos = empty_position();

    pos.board[28] = Some(ColoredPiece {
        piece: Piece::King,
        side: Side::White,
    });

    assert_eq!(pos.is_square_attacked(28, Side::White), Ok(None));
    assert_eq!(pos.is_square_attacked(28, Side::Black), Ok(None));
}

#[test]
fn check_is_square_attacked_by_black_pawns() {
    let mut pos = empty_position();

    pos.board[28] = Some(ColoredPiece {
        piece: Piece::King,
        side: Side::White,
    });
    pos.board[35] = Some(ColoredPiece {
        piece: Piece::Pawn,
        side: Side::Black,
    });
    pos.board[37] = Some(ColoredPiece {
        piece: Piece::Pawn,
        side: Side::Black,
    });

    // Black's pawns are looked for on the rank below the square.
    assert_eq!(pos.is_square_attacked(28, Side::Black), Ok(None));
    assert_eq!(pos.is_square_attacked(28, Side::White), Ok(None));

    let mut attacks = pos
        .is_square_attacked(44, Side::Black)
        .expect("is_square_attacked returned Err")
        .unwrap();
    attacks.sort_unstable();

    assert_eq!(attacks, vec![35, 37]);
}

#[test]
fn check_is_square_attacked_by_white_pawns() {
    let mut pos = empty_position();

    pos.board[36] = Some(ColoredPiece {
        piece: Piece::King,
        side: Side::Black,
    });
    pos.board[27] = Some(ColoredPiece {
        piece: Piece::Pawn,
        side: Side::White,
    });
    pos.board[29] = Some(ColoredPiece {
        piece: Piece::Pawn,
        side: Side::White,
    });

    // White's pawns are looked for on the rank above the square.
    assert_eq!(pos.is_square_attacked(36, Side::White), Ok(None));
    assert_eq!(pos.is_square_attacked(36, Side::Black), Ok(None));

    let mut attacks = pos
        .is_square_attacked(20, Side::White)
        .expect("is_square_attacked returned Err")
        .unwrap();
    attacks.sort_unstable();

    assert_eq!(attacks, vec![27, 29]);
}

#[test]
fn check_is_square_attacked_by_rook_and_bishop() {
    let mut pos = empty_position();

    pos.board[28] = Some(ColoredPiece {
        piece: Piece::King,
        side: Side::White,
    });
    pos.board[60] = Some(ColoredPiece {
        piece: Piece::Rook,
        side: Side::Black,
    });
    pos.board[1] = Some(ColoredPiece {
        piece: Piece::Bishop,
        side: Side::Black,
    });

    let attacks = pos
        .is_square_attacked(28, Side::Black)
        .expect("is_square_attacked returned Err")
        .unwrap();

    assert!(has_square(&attacks, 60));
    assert!(has_square(&attacks, 1));
    assert_eq!(attacks.len(), 2);
}

#[test]
fn is_square_attacked_by_king_adjacent() {
    let mut pos = empty_position();

    pos.board[28] = Some(ColoredPiece {
        piece: Piece::King,
        side: Side::White,
    });
    pos.board[29] = Some(ColoredPiece {
        piece: Piece::King,
        side: Side::Black,
    });

    let attacks = pos
        .is_square_attacked(28, Side::Black)
        .expect("is_square_attacked returned Err")
        .unwrap();

    assert!(has_square(&attacks, 29));
}

#[test]
fn is_square_attacked_king_does_not_wrap_board_edge() {
    let mut pos = empty_position();

    pos.board[7] = Some(ColoredPiece {
        piece: Piece::King,
        side: Side::White,
    });
    pos.board[8] = Some(ColoredPiece {
        piece: Piece::King,
        side: Side::Black,
    });

    assert_eq!(pos.is_square_attacked(7, Side::Black), Ok(None));
}

#[test]
fn is_square_attacked_by_knight_l_shape() {
    let mut pos = empty_position();

    pos.board[28] = Some(ColoredPiece {
        piece: Piece::King,
        side: Side::White,
    });
    pos.board[45] = Some(ColoredPiece {
        piece: Piece::Knight,
        side: Side::Black,
    });

    let attacks = pos
        .is_square_attacked(28, Side::Black)
        .expect("is_square_attacked returned Err")
        .unwrap();

    assert!(has_square(&attacks, 45));
}

#[test]
fn is_square_attacked_knight_does_not_wrap_board_edge() {
    let mut pos = empty_position();

    pos.board[7] = Some(ColoredPiece {
        piece: Piece::King,
        side: Side::White,
    });
    pos.board[17] = Some(ColoredPiece {
        piece: Piece::Knight,
        side: Side::Black,
    });

    assert_eq!(pos.is_square_attacked(7, Side::Black), Ok(None));
}

#[test]
fn check_is_square_attacked_blocked_by_friendly_piece() {
    let mut pos = empty_position();

    pos.board[28] = Some(ColoredPiece {
        piece: Piece::King,
        side: Side::White,
    });
    pos.board[60] = Some(ColoredPiece {
        piece: Piece::Rook,
        side: Side::Black,
    });
    pos.board[44] = Some(ColoredPiece {
        piece: Piece::Bishop,
        side: Side::White,
    });

    assert_eq!(pos.is_square_attacked(28, Side::Black), Ok(None));
}

#[test]
fn check_is_square_attacked_blocked_by_enemy_non_attacker() {
    let mut pos = empty_position();

    pos.board[28] = Some(ColoredPiece {
        piece: Piece::King,
        side: Side::White,
    });
    pos.board[60] = Some(ColoredPiece {
        piece: Piece::Rook,
        side: Side::Black,
    });
    pos.board[44] = Some(ColoredPiece {
        piece: Piece::Knight,
        side: Side::Black,
    });

    assert_eq!(pos.is_square_attacked(28, Side::Black), Ok(None));
}

#[test]
fn is_square_attacked_no_piece_on_square() {
    let pos = empty_position();

    assert_eq!(pos.is_square_attacked(35, Side::White), Ok(None));
    assert_eq!(pos.is_square_attacked(35, Side::Black), Ok(None));
}
