use cutergames::board::LocalBoard;
use cutergames::play::GameOutcome;

#[test]
fn board_startpos() {
    let board = LocalBoard::from_fen("startpos").unwrap();
    assert!(!board.is_gameover());
    assert_eq!(board.turn_index(), Some(0));
    assert_eq!(board.result(), None);
}

#[test]
fn board_legality_and_moves() {
    let mut board = LocalBoard::from_fen("startpos").unwrap();
    // A single expansion next to the black corner piece is legal.
    assert!(board.is_legal("b7"));
    // Passing is illegal while real moves exist, as is nonsense.
    assert!(!board.is_legal("0000"));
    assert!(!board.is_legal("z9"));
    assert!(!board.is_legal(""));

    assert!(board.apply_move("b7"));
    assert_eq!(board.turn_index(), Some(1));
    // The same move is not available to the other side.
    assert!(!board.apply_move("b7"));
    assert_eq!(board.turn_index(), Some(1));
}

#[test]
fn board_bad_fen() {
    assert!(LocalBoard::from_fen("").is_none());
    assert!(LocalBoard::from_fen("x5o/7/7/7/7/7/o5x").is_none());
    assert!(LocalBoard::from_fen("not a fen at all").is_none());
}

#[test]
fn board_finished_game() {
    // White has no pieces left: black has won.
    let board = LocalBoard::from_fen("xxxxxxx/7/7/7/7/7/7 o 0").unwrap();
    assert!(board.is_gameover());
    assert_eq!(board.result(), Some(GameOutcome::P1win));

    let board = LocalBoard::from_fen("ooooooo/7/7/7/7/7/7 x 0").unwrap();
    assert_eq!(board.result(), Some(GameOutcome::P2win));

    // The fifty-move rule adjudicates a draw.
    let board = LocalBoard::from_fen("xxx1ooo/7/7/7/7/7/7 x 100").unwrap();
    assert!(board.is_gameover());
    assert_eq!(board.result(), Some(GameOutcome::Draw));
}
