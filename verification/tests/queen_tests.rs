use chrust_core::errors::ChessError;
use chrust_core::moves::make_move::{Move, MoveKind};
use chrust_core::position::Position;
use chrust_core::{ColoredPiece, Piece, Side, Square};

fn empty_position() -> Position {
    Position {
        board: [None; 64],
        side_to_move: Side::White,
        castle: [false; 4],
        en_passant: None,
        king_squares: [4, 60],
    }
}

fn has_move(moves: &[Move], from: Square, to: Square, kind: MoveKind) -> bool {
    moves
        .iter()
        .any(|m| m.from_square == from && m.to_square == to && m.move_kind == kind)
}

fn has_to_square(moves: &[Move], to: Square) -> bool {
    moves.iter().any(|m| m.to_square == to)
}

#[test]
fn queen_d4_empty_board() {
    let mut pos = empty_position();

    pos.board[27] = Some(ColoredPiece {
        piece: Piece::Queen,
        side: Side::White,
    });

    let moves = pos.queen_targets(27).expect("queen_targets returned Err");

    assert_eq!(moves.len(), 27);

    assert!(has_move(&moves, 27, 31, MoveKind::Quiet)); // h4
    assert!(has_move(&moves, 27, 3, MoveKind::Quiet)); // d1
    assert!(has_move(&moves, 27, 63, MoveKind::Quiet)); // h8
    assert!(has_move(&moves, 27, 18, MoveKind::Quiet)); // c3
    assert!(has_move(&moves, 27, 36, MoveKind::Quiet)); // e5
}

#[test]
fn queen_d4_blocked_by_friendly_piece_f4() {
    let mut pos = empty_position();

    pos.board[27] = Some(ColoredPiece {
        piece: Piece::Queen,
        side: Side::White,
    });

    pos.board[29] = Some(ColoredPiece {
        piece: Piece::Knight,
        side: Side::White,
    });

    let moves = pos.queen_targets(27).expect("queen_targets returned Err");

    assert!(has_move(&moves, 27, 28, MoveKind::Quiet));
    assert!(!has_to_square(&moves, 29));
    assert!(!has_to_square(&moves, 30));
}

#[test]
fn queen_c7_enemy_f4() {
    let mut pos = empty_position();

    pos.board[50] = Some(ColoredPiece {
        piece: Piece::Queen,
        side: Side::White,
    });

    pos.board[29] = Some(ColoredPiece {
        piece: Piece::Pawn,
        side: Side::Black,
    });

    let moves = pos.queen_targets(50).expect("queen_targets returned Err");

    assert!(has_move(&moves, 50, 36, MoveKind::Quiet));
    assert!(has_move(&moves, 50, 29, MoveKind::Capture));
    assert!(!has_to_square(&moves, 22));
}

#[test]
fn queen_wrong_piece_e8() {
    let mut pos = empty_position();

    pos.board[60] = Some(ColoredPiece {
        piece: Piece::Knight,
        side: Side::White,
    });

    assert_eq!(
        pos.queen_targets(60),
        Err(ChessError::WrongPieceType {
            expected_piece: Piece::Queen,
            found_piece: Piece::Knight,
        })
    );
}

#[test]
fn queen_no_piece_d5() {
    let pos = empty_position();

    assert_eq!(
        pos.queen_targets(35),
        Err(ChessError::NoPieceOnSquare { square: 35 })
    )
}

#[test]
fn queen_try_move_on_non_existing_square() {
    let pos = empty_position();

    assert_eq!(
        pos.queen_targets(65),
        Err(ChessError::NotASquareOnBoard { square: 65 })
    )
}
