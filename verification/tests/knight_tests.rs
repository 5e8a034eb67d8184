use chrust_core::errors::ChessError;
use chrust_core::moves::make_move::{Move, MoveKind};
use chrust_core::position::Position;
use chrust_core::{ColoredPiece, Piece, Side, Square};

fn empty_position() -> Position {
    Position {
        board: [None; 64],
        side_to_move: Side::White,
        castle: [false; 4],
        en_passant: None,
        king_squares: [4, 60],
    }
}

fn has_move(moves: &[Move], from: Square, to: Square, kind: MoveKind) -> bool {
    moves
        .iter()
        .any(|m| m.from_square == from && m.to_square == to && m.move_kind == kind)
}

fn has_to_square(moves: &[Move], to: Square) -> bool {
    moves.iter().any(|m| m.to_square == to)
}

#[test]
fn knight_knight_e4_empty_board() {
    let mut pos = empty_position();
    pos.side_to_move = Side::Black;

    pos.board[28] = Some(ColoredPiece {
        piece: Piece::Knight,
        side: Side::Black,
    });

    let moves = pos.knight_targets(28).expect("knight_targets returned Err");

    assert_eq!(moves.len(), 8);

    assert!(has_move(&moves, 28, 43, MoveKind::Quiet));
    assert!(has_move(&moves, 28, 45, MoveKind::Quiet));
    assert!(has_move(&moves, 28, 11, MoveKind::Quiet));
    assert!(has_move(&moves, 28, 22, MoveKind::Quiet));
}

#[test]
fn knight_knight_a8_corner_test() {
    let mut pos = empty_position();

    pos.board[56] = Some(ColoredPiece {
        piece: Piece::Knight,
        side: Side::White,
    });

    let moves = pos.knight_targets(56).expect("knight_targets returned Err");

    assert_eq!(moves.len(), 2);

    assert!(has_move(&moves, 56, 50, MoveKind::Quiet));
    assert!(has_move(&moves, 56, 41, MoveKind::Quiet));
    assert!(!has_to_square(&moves, 39));
    assert!(!has_to_square(&moves, 16));
}

#[test]
fn knight_knight_g8_enemy_h6() {
    let mut pos = empty_position();
    pos.side_to_move = Side::Black;

    pos.board[62] = Some(ColoredPiece {
        piece: Piece::Knight,
        side: Side::Black,
    });

    pos.board[47] = Some(ColoredPiece {
        piece: Piece::Pawn,
        side: Side::White,
    });

    let moves = pos.knight_targets(62).expect("knight_targets returned Err");

    assert_eq!(moves.len(), 3);

    assert!(has_move(&moves, 62, 47, MoveKind::Capture));
}

#[test]
fn knight_knight_d1_friendly_f2() {
    let mut pos = empty_position();

    pos.board[3] = Some(ColoredPiece {
        piece: Piece::Knight,
        side: Side::White,
    });

    pos.board[13] = Some(ColoredPiece {
        piece: Piece::Pawn,
        side: Side::White,
    });

    let moves = pos.knight_targets(3).expect("knight_targets returned Err");

    assert_eq!(moves.len(), 3);

    assert!(!has_to_square(&moves, 13));
}

#[test]
fn knight_wrong_piece_e8() {
    let mut pos = empty_position();

    pos.board[60] = Some(ColoredPiece {
        piece: Piece::King,
        side: Side::White,
    });

    assert_eq!(
        pos.knight_targets(60),
        Err(ChessError::WrongPieceType { expected_piece: Piece::Knight, found_piece: Piece::King })
    );
}

#[test]
fn knight_no_piece_d5() {
    let pos = empty_position();

    assert_eq!(
        pos.knight_targets(35),
        Err(ChessError::NoPieceOnSquare { square: 35 })
    )
}

#[test]
fn knight_try_move_on_non_existing_square() {
    let pos = empty_position();

    assert_eq!(
        pos.knight_targets(65),
        Err(ChessError::NotASquareOnBoard { square: 65 })
    )
}
