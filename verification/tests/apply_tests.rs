use chrust_core::errors::ChessError;
use chrust_core::moves::make_move::{Move, MoveKind};
use chrust_core::moves::move_gen::move_gen::get_possible_moves;
use chrust_core::position::{load_position_from_fen, Position};
use chrust_core::{ColoredPiece, Piece, Side};

fn empty_position() -> Position {
    Position {
        board: [None; 64],
        side_to_move: Side::White,
        castle: [false; 4],
        en_passant: None,
        king_squares: [4, 60],
    }
}

fn white(piece: Piece) -> ColoredPiece {
    ColoredPiece {
        piece,
        side: Side::White,
    }
}

fn black(piece: Piece) -> ColoredPiece {
    ColoredPiece {
        piece,
        side: Side::Black,
    }
}

#[test]
fn validated_double_push_sets_en_passant() {
    let mut pos = empty_position();
    pos.board[12] = Some(white(Piece::Pawn));

    let mv = Move {
        from_square: 12,
        to_square: 28,
        colored_piece: white(Piece::Pawn),
        move_kind: MoveKind::DoublePawnPush { passed_square: 20 },
    };
    let next = pos.make_move_validated(&mv).unwrap();

    assert_eq!(next.en_passant, Some(20));
    assert_eq!(next.board[12], None);
    assert_eq!(next.board[28], Some(white(Piece::Pawn)));
    assert_eq!(next.side_to_move, Side::Black);
    assert_eq!(pos.en_passant, None);
}

#[test]
fn validated_other_moves_clear_en_passant() {
    let mut pos = empty_position();
    pos.en_passant = Some(43);
    pos.board[12] = Some(white(Piece::Pawn));
    pos.board[36] = Some(white(Piece::Pawn));
    pos.board[35] = Some(black(Piece::Pawn));
    pos.board[21] = Some(black(Piece::Knight));
    pos.board[4] = Some(white(Piece::King));
    pos.board[7] = Some(white(Piece::Rook));
    pos.board[54] = Some(white(Piece::Pawn));

    let kinds = [
        (12, 20, MoveKind::Quiet),
        (12, 21, MoveKind::Capture),
        (
            36,
            43,
            MoveKind::EnPassant { capture_square: 35 },
        ),
        (
            4,
            6,
            MoveKind::Castling {
                rook_from: 7,
                rook_to: 5,
            },
        ),
        (
            54,
            62,
            MoveKind::Promotion {
                promotion_piece: Some(Piece::Queen),
            },
        ),
    ];
    for (from, to, kind) in kinds {
        let mv = Move {
            from_square: from,
            to_square: to,
            colored_piece: pos.board[from as usize].unwrap(),
            move_kind: kind,
        };
        let next = pos.make_move_validated(&mv).unwrap();
        assert_eq!(next.en_passant, None);
        assert_eq!(next.side_to_move, Side::Black);
    }
}

#[test]
fn unvalidated_keeps_en_passant_and_castling_rights() {
    let mut pos = empty_position();
    pos.en_passant = Some(43);
    pos.castle = [true, false, true, false];
    pos.board[0] = Some(white(Piece::Rook));

    let mv = Move {
        from_square: 0,
        to_square: 8,
        colored_piece: white(Piece::Rook),
        move_kind: MoveKind::Quiet,
    };
    let next = pos.make_move_unvalidated(&mv).unwrap();

    assert_eq!(next.en_passant, Some(43));
    assert_eq!(next.castle, [true, false, true, false]);
    assert_eq!(next.king_squares, [4, 60]);

    let validated = pos.make_move_validated(&mv).unwrap();
    assert_eq!(validated.castle, [true, false, true, false]);
}

#[test]
fn en_passant_takes_the_pawn_behind_the_target() {
    let mut pos = empty_position();
    pos.board[36] = Some(white(Piece::Pawn));
    pos.board[35] = Some(black(Piece::Pawn));
    pos.en_passant = Some(43);

    let moves = pos.pawn_targets(36).unwrap();
    let en_passant = moves
        .iter()
        .find(|m| matches!(m.move_kind, MoveKind::EnPassant { .. }))
        .unwrap();
    assert_eq!(
        en_passant.move_kind,
        MoveKind::EnPassant { capture_square: 35 }
    );

    let next = pos.make_move_validated(en_passant).unwrap();
    assert_eq!(next.board[35], None);
    assert_eq!(next.board[36], None);
    assert_eq!(next.board[43], Some(white(Piece::Pawn)));
    assert_eq!(next.en_passant, None);
}

#[test]
fn castling_moves_king_and_rook_and_records_the_king() {
    let mut pos = empty_position();
    pos.board[4] = Some(white(Piece::King));
    pos.board[7] = Some(white(Piece::Rook));
    pos.castle[0] = true;

    let mv = Move {
        from_square: 4,
        to_square: 6,
        colored_piece: white(Piece::King),
        move_kind: MoveKind::Castling {
            rook_from: 7,
            rook_to: 5,
        },
    };
    let next = pos.make_move_validated(&mv).unwrap();

    assert_eq!(next.board[4], None);
    assert_eq!(next.board[7], None);
    assert_eq!(next.board[6], Some(white(Piece::King)));
    assert_eq!(next.board[5], Some(white(Piece::Rook)));
    assert_eq!(next.king_squares, [6, 60]);
    assert_eq!(pos.king_squares, [4, 60]);
}

#[test]
fn black_queen_side_castling_generated_and_applied() {
    let mut pos = empty_position();
    pos.side_to_move = Side::Black;
    pos.board[60] = Some(black(Piece::King));
    pos.board[56] = Some(black(Piece::Rook));
    pos.castle[3] = true;

    let moves = get_possible_moves(&pos, 60).unwrap();
    let castling = moves
        .iter()
        .find(|m| matches!(m.move_kind, MoveKind::Castling { .. }))
        .unwrap();
    let next = pos.make_move_validated(castling).unwrap();

    assert_eq!(next.board[58], Some(black(Piece::King)));
    assert_eq!(next.board[59], Some(black(Piece::Rook)));
    assert_eq!(next.board[56], None);
    assert_eq!(next.board[60], None);
    assert_eq!(next.king_squares, [4, 58]);
    assert_eq!(next.side_to_move, Side::White);
}

#[test]
fn king_moves_update_the_recorded_square() {
    let mut pos = empty_position();
    pos.side_to_move = Side::Black;
    pos.board[60] = Some(black(Piece::King));

    let mv = Move {
        from_square: 60,
        to_square: 52,
        colored_piece: black(Piece::King),
        move_kind: MoveKind::Quiet,
    };
    let next = pos.make_move_unvalidated(&mv).unwrap();
    assert_eq!(next.king_squares, [4, 52]);
}

#[test]
fn castling_errors() {
    let mut pos = empty_position();
    pos.board[4] = Some(white(Piece::King));

    let castle = |rook_from, rook_to| Move {
        from_square: 4,
        to_square: 6,
        colored_piece: white(Piece::King),
        move_kind: MoveKind::Castling { rook_from, rook_to },
    };
    assert_eq!(
        pos.make_move_unvalidated(&castle(64, 5)).unwrap_err(),
        ChessError::NotASquareOnBoard { square: 64 }
    );
    assert_eq!(
        pos.make_move_unvalidated(&castle(7, 99)).unwrap_err(),
        ChessError::NotASquareOnBoard { square: 99 }
    );
    assert_eq!(
        pos.make_move_unvalidated(&castle(7, 5)).unwrap_err(),
        ChessError::NoPieceOnSquare { square: 7 }
    );
}

#[test]
fn en_passant_capture_square_off_the_board() {
    let mut pos = empty_position();
    pos.board[36] = Some(white(Piece::Pawn));

    let mv = Move {
        from_square: 36,
        to_square: 43,
        colored_piece: white(Piece::Pawn),
        move_kind: MoveKind::EnPassant { capture_square: 70 },
    };
    assert_eq!(
        pos.make_move_validated(&mv).unwrap_err(),
        ChessError::NotASquareOnBoard { square: 70 }
    );
}

#[test]
fn promotion_needs_a_piece() {
    let mut pos = empty_position();
    pos.board[52] = Some(white(Piece::Pawn));

    let unset = Move {
        from_square: 52,
        to_square: 60,
        colored_piece: white(Piece::Pawn),
        move_kind: MoveKind::Promotion {
            promotion_piece: None,
        },
    };
    assert_eq!(
        pos.make_move_unvalidated(&unset).unwrap_err(),
        ChessError::PromotionPieceCantBeEmpty
    );
    assert_eq!(
        pos.make_move_validated(&unset).unwrap_err(),
        ChessError::PromotionPieceCantBeEmpty
    );

    let chosen = Move {
        move_kind: MoveKind::Promotion {
            promotion_piece: Some(Piece::Knight),
        },
        ..unset
    };
    let next = pos.make_move_validated(&chosen).unwrap();
    assert_eq!(next.board[52], None);
    assert_eq!(next.board[60], Some(white(Piece::Knight)));
}

#[test]
fn errors_come_in_order() {
    let pos = empty_position();
    let mv = Move {
        from_square: 70,
        to_square: 80,
        colored_piece: white(Piece::Pawn),
        move_kind: MoveKind::Promotion {
            promotion_piece: None,
        },
    };
    assert_eq!(
        pos.make_move_unvalidated(&mv).unwrap_err(),
        ChessError::NotASquareOnBoard { square: 70 }
    );
    let mv = Move {
        from_square: 7,
        ..mv
    };
    assert_eq!(
        pos.make_move_unvalidated(&mv).unwrap_err(),
        ChessError::NotASquareOnBoard { square: 80 }
    );
    let mv = Move { to_square: 8, ..mv };
    assert_eq!(
        pos.make_move_unvalidated(&mv).unwrap_err(),
        ChessError::NoPieceOnSquare { square: 7 }
    );
}

#[test]
fn every_generated_move_of_the_start_position_applies() {
    let pos =
        load_position_from_fen("rnbqkbnr/pppppppp/8/8/8/8/PPPPPPPP/RNBQKBNR w KQkq - 0 1").unwrap();
    let mut count = 0;
    for square in 0..16u8 {
        for mv in get_possible_moves(&pos, square).unwrap() {
            let next = pos.make_move_validated(&mv).unwrap();
            assert_eq!(next.side_to_move, Side::Black);
            assert_eq!(next.board[mv.to_square as usize], Some(mv.colored_piece));
            assert_eq!(next.board[mv.from_square as usize], None);
            count += 1;
        }
    }
    assert_eq!(count, 20);
}
