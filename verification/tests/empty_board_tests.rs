use chrust_core::move_gen::{king_targets, knight_targets};

#[test]
fn knight_c7() {
    let moves = knight_targets(50);

    assert_eq!(moves.len(), 6);

    let expected = [33, 35, 40, 44, 56, 60];
    for square in expected {
        assert!(moves.contains(&square));
    }
}

#[test]
fn knight_h8() {
    let moves = knight_targets(7);

    assert_eq!(moves.len(), 2);

    let expected = [22, 13];
    for square in expected {
        assert!(moves.contains(&square));
    }
}

#[test]
fn king_d4() {
    let moves = king_targets(27);

    assert_eq!(moves.len(), 8);

    let expected = [18, 19, 20, 26, 28, 34, 35, 36];
    for square in expected {
        assert!(moves.contains(&square));
    }
}

#[test]
fn king_h8() {
    let moves = king_targets(63);

    assert_eq!(moves.len(), 3);

    let expected = [62, 54, 55];
    for square in expected {
        assert!(moves.contains(&square));
    }
}
