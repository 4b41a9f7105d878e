use chess::game::{Game, MoveIllegal};
use chess::{Item, MoveType, Player, AN};

fn assert_invalid(r: Result<chess::MoveValid, MoveIllegal>) {
    match r {
        Err(MoveIllegal::Invalid) => {},
        other => panic!("expected an invalid move, got {:?}", other),
    }
}

#[test]
fn new_game_starts_with_white_and_full_board() {
    let mut game = Game::new();
    assert_eq!(game.get_active(), Player::White(Item::Pawn));
    assert!(game.in_check().is_none());
    assert!(!game.is_started());
    assert_eq!(*game.get_player((0, 4)), Some(Player::White(Item::King(false))));
    assert_eq!(*game.get_player((7, 3)), Some(Player::Black(Item::Queen)));
    assert_eq!(*game.get_player((6, 5)), Some(Player::Black(Item::Pawn)));
    assert_eq!(*game.get_player((4, 4)), None);
}

#[test]
fn start_sets_the_game_id() {
    let mut game = Game::new();
    game.start(7);
    assert!(game.is_started());
    game.start(0);
    assert!(!game.is_started());
}

#[test]
fn build_board_matches_new_game() {
    let board = Game::build_board();
    let game = Game::new();
    for r in 0..8i8 {
        for c in 0..8i8 {
            assert_eq!(board[r as usize][c as usize], *game.get_player((r, c)));
        }
    }
    assert_eq!(board[0][0], Some(Player::White(Item::Rook(false))));
    assert_eq!(board[7][6], Some(Player::Black(Item::Knight)));
}

#[test]
fn readme_example_bishop_leaves_through_the_opened_square() {
    let mut game = Game::new();
    assert!(game.play((1, 1), (2, 1)).is_ok()); //player white
    assert!(game.play((6, 1), (5, 1)).is_ok()); //player black
    let r = game.play((0, 2), (2, 0)).unwrap();
    assert_eq!(r.mt, MoveType::Regular);
    assert_eq!(r.item, Player::White(Item::Bishop));
    assert_eq!(r.mv, ((0, 2), (2, 0)));
    assert_eq!(*game.get_player((2, 0)), Some(Player::White(Item::Bishop)));
    assert_eq!(*game.get_player((0, 2)), None);
}

#[test]
fn refused_move_changes_nothing() {
    let mut game = Game::new();
    // Black may not move first
    assert_invalid(game.play((6, 0), (5, 0)));
    assert_eq!(game.get_active(), Player::White(Item::Pawn));
    assert_eq!(*game.get_player((6, 0)), Some(Player::Black(Item::Pawn)));
    assert_eq!(*game.get_player((5, 0)), None);
    // an empty square has no move
    assert_invalid(game.play((3, 3), (4, 3)));
    // a knight may not jump onto its own side
    assert_invalid(game.play((0, 1), (1, 3)));
    // a pawn may not step sideways
    assert_invalid(game.play((1, 0), (1, 1)));
    assert_eq!(game.get_active(), Player::White(Item::Pawn));
}

#[test]
fn blocked_rook_names_the_blocker() {
    let mut game = Game::new();
    match game.play((0, 0), (3, 0)) {
        Err(MoveIllegal::Blocked(p)) => assert_eq!(p, (1, 0)),
        other => panic!("expected a blocked move, got {:?}", other),
    }
    assert_eq!(*game.get_player((0, 0)), Some(Player::White(Item::Rook(false))));
}

#[test]
fn moving_into_check_is_refused_and_undone() {
    let mut game = Game::new();
    assert!(game.play_an((AN::E, 2), (AN::E, 4)).is_ok());
    assert!(game.play_an((AN::F, 7), (AN::F, 6)).is_ok());
    let r = game.play_an((AN::D, 1), (AN::H, 5)).unwrap();
    assert_eq!(r.check, Some(((4, 7), (7, 4))));
    assert_eq!(game.in_check(), Some(Player::Black(Item::King(false))));
    // a move that leaves the king attacked is refused with attacker and king
    match game.play_an((AN::A, 7), (AN::A, 6)) {
        Err(MoveIllegal::Check(from, king)) => {
            assert_eq!(from, (4, 7));
            assert_eq!(king, (7, 4));
        },
        other => panic!("expected a check refusal, got {:?}", other),
    }
    assert_eq!(game.get_active(), Player::Black(Item::Pawn));
    assert_eq!(*game.get_player((6, 0)), Some(Player::Black(Item::Pawn)));
    assert_eq!(*game.get_player((5, 0)), None);
    // blocking the check is accepted
    let r = game.play_an((AN::G, 7), (AN::G, 6)).unwrap();
    assert!(r.check.is_none());
    assert!(game.in_check().is_none());
}

#[test]
fn capture_reports_the_taken_piece() {
    let mut game = Game::new();
    assert!(game.play_an((AN::E, 2), (AN::E, 4)).is_ok());
    assert!(game.play_an((AN::D, 7), (AN::D, 5)).is_ok());
    let r = game.play_an((AN::E, 4), (AN::D, 5)).unwrap();
    assert_eq!(r.cap, Some((Player::Black(Item::Pawn), (4, 3))));
    assert_eq!(*game.get_player((4, 3)), Some(Player::White(Item::Pawn)));
    assert_eq!(*game.get_player((3, 4)), None);
}

#[test]
fn double_step_leaves_a_marker_that_black_may_take() {
    let mut game = Game::new();
    assert!(game.play((1, 0), (2, 0)).is_ok());
    assert!(game.play((6, 3), (4, 3)).is_ok());
    assert!(game.play((2, 0), (3, 0)).is_ok());
    assert!(game.play((4, 3), (3, 3)).is_ok());
    let r = game.play((1, 4), (3, 4)).unwrap();
    assert_eq!(r.mt, MoveType::Double((2, 4)));
    assert_eq!(*game.get_player((2, 4)), Some(Player::White(Item::EnPass((3, 4)))));
    // Black takes en passant: the pawn named by the marker is taken off the board
    let r = game.play((3, 3), (2, 4)).unwrap();
    assert_eq!(r.cap, Some((Player::White(Item::Pawn), (3, 4))));
    assert_eq!(*game.get_player((2, 4)), Some(Player::Black(Item::Pawn)));
    assert_eq!(*game.get_player((3, 4)), None);
    assert_eq!(*game.get_player((3, 3)), None);
}

#[test]
fn white_may_take_a_black_double_step_en_passant() {
    let mut game = Game::new();
    assert!(game.play((1, 4), (3, 4)).is_ok());
    assert!(game.play((6, 0), (5, 0)).is_ok());
    assert!(game.play((3, 4), (4, 4)).is_ok());
    let r = game.play((6, 3), (4, 3)).unwrap();
    assert_eq!(r.mt, MoveType::Double((5, 3)));
    assert_eq!(*game.get_player((5, 3)), Some(Player::Black(Item::EnPass((4, 3)))));
    let r = game.play((4, 4), (5, 3)).unwrap();
    assert_eq!(r.cap, Some((Player::Black(Item::Pawn), (4, 3))));
    assert_eq!(*game.get_player((5, 3)), Some(Player::White(Item::Pawn)));
    assert_eq!(*game.get_player((4, 3)), None);
}

#[test]
fn marker_lasts_one_turn() {
    let mut game = Game::new();
    assert!(game.play((1, 4), (3, 4)).is_ok());
    assert_eq!(*game.get_player((2, 4)), Some(Player::White(Item::EnPass((3, 4)))));
    assert!(game.play((6, 0), (5, 0)).is_ok());
    assert_eq!(*game.get_player((2, 4)), None);
    // a Black double step leaves a Black marker, gone after White's reply
    assert!(game.play((1, 0), (2, 0)).is_ok());
    let r = game.play((6, 3), (4, 3)).unwrap();
    assert_eq!(r.mt, MoveType::Double((5, 3)));
    assert_eq!(*game.get_player((5, 3)), Some(Player::Black(Item::EnPass((4, 3)))));
    assert!(game.play((2, 0), (3, 0)).is_ok());
    assert_eq!(*game.get_player((5, 3)), None);
}

#[test]
fn a_piece_other_than_a_pawn_covers_a_marker() {
    let mut game = Game::new();
    assert!(game.play((0, 1), (2, 2)).is_ok());
    assert!(game.play((6, 0), (5, 0)).is_ok());
    assert!(game.play((2, 2), (3, 4)).is_ok());
    assert!(game.play((6, 3), (4, 3)).is_ok());
    assert_eq!(*game.get_player((5, 3)), Some(Player::Black(Item::EnPass((4, 3)))));
    // the knight lands on the marker square and takes nothing
    let r = game.play((3, 4), (5, 3)).unwrap();
    assert!(r.cap.is_none());
    assert_eq!(*game.get_player((5, 3)), Some(Player::White(Item::Knight)));
    assert_eq!(*game.get_player((4, 3)), Some(Player::Black(Item::Pawn)));
    assert_eq!(r.check, Some(((5, 3), (7, 4))));
}

#[test]
fn a_double_step_may_not_jump_over_a_piece() {
    let mut game = Game::new();
    assert!(game.play((0, 6), (2, 5)).is_ok());
    assert!(game.play((6, 0), (5, 0)).is_ok());
    match game.play((1, 5), (3, 5)) {
        Err(MoveIllegal::Blocked(p)) => assert_eq!(p, (2, 5)),
        other => panic!("expected a blocked move, got {:?}", other),
    }
    assert_eq!(*game.get_player((1, 5)), Some(Player::White(Item::Pawn)));
}

#[test]
fn turns_alternate() {
    let mut game = Game::new();
    assert!(game.play((1, 4), (3, 4)).is_ok());
    assert_invalid(game.play((1, 3), (3, 3)));
    assert!(game.play((6, 4), (4, 4)).is_ok());
    assert_invalid(game.play((6, 3), (4, 3)));
    assert_eq!(game.get_active(), Player::White(Item::Pawn));
}

#[test]
fn play_an_names_the_same_squares_as_play() {
    let mut a = Game::new();
    let mut b = Game::new();
    let ra = a.play_an((AN::G, 1), (AN::F, 3)).unwrap();
    let rb = b.play((0, 6), (2, 5)).unwrap();
    assert_eq!(ra.mv, rb.mv);
    assert_eq!(ra.item, Player::White(Item::Knight));
    assert_eq!(AN::A.column(), 0);
    assert_eq!(AN::H.column(), 7);
}

#[test]
fn may_play_tells_when_play_does_its_work() {
    let game = Game::new();
    assert!(game.may_play((1, 4), (3, 4)));
    assert!(game.may_play((6, 4), (4, 4)));
    assert!(!game.may_play((8, 0), (0, 0)));
    assert!(!game.may_play((-1, 0), (0, 0)));
    assert!(!game.may_play((1, 4), (9, 4)));
    // off-board target from a square the side to move does not hold
    assert!(game.may_play((6, 4), (9, 4)));
}

#[test]
fn a_pawn_may_not_step_straight_onto_a_piece() {
    let mut game = Game::new();
    let moves = [
        ((1, 0), (2, 0)),
        ((6, 4), (4, 4)),
        ((2, 0), (3, 0)),
        ((7, 4), (6, 4)),
        ((1, 7), (2, 7)),
        ((6, 4), (5, 4)),
        ((2, 7), (3, 7)),
        ((5, 4), (4, 3)),
        ((3, 0), (4, 0)),
        ((4, 3), (3, 4)),
    ];
    for (from, to) in moves.iter() {
        assert!(game.may_play(*from, *to));
        assert!(game.play(*from, *to).is_ok());
    }
    // the black king stands two squares ahead of White's e pawn, and one
    // square ahead of the d pawn's double step
    assert_eq!(*game.get_player((3, 4)), Some(Player::Black(Item::King(false))));
    assert!(game.may_play((1, 4), (3, 4)));
    assert_invalid(game.play((1, 4), (3, 4)));
    assert_eq!(*game.get_player((3, 4)), Some(Player::Black(Item::King(false))));
    assert_eq!(*game.get_player((1, 4)), Some(Player::White(Item::Pawn)));
    assert!(game.play((1, 3), (2, 3)).is_ok());
}

#[test]
fn a_pawn_gives_check_only_diagonally() {
    let mut game = Game::new();
    assert!(game.play_an((AN::D, 2), (AN::D, 4)).is_ok());
    assert!(game.play_an((AN::E, 7), (AN::E, 5)).is_ok());
    assert!(game.play_an((AN::D, 4), (AN::E, 5)).unwrap().cap.is_some());
    assert!(game.play_an((AN::E, 8), (AN::E, 7)).is_ok());
    // the pawn stands straight in front of the king: no check
    let r = game.play_an((AN::E, 5), (AN::E, 6)).unwrap();
    assert!(r.check.is_none());
    assert!(game.in_check().is_none());
}

#[test]
fn a_king_may_not_step_onto_a_square_a_pawn_takes() {
    let mut game = Game::new();
    assert!(game.play_an((AN::D, 2), (AN::D, 4)).is_ok());
    assert!(game.play_an((AN::E, 7), (AN::E, 5)).is_ok());
    assert!(game.play_an((AN::D, 4), (AN::E, 5)).is_ok());
    assert!(game.play_an((AN::E, 8), (AN::E, 7)).is_ok());
    assert!(game.play_an((AN::A, 2), (AN::A, 3)).is_ok());
    // f6 is diagonally in front of the pawn on e5
    match game.play_an((AN::E, 7), (AN::F, 6)) {
        Err(MoveIllegal::Check(from, king)) => {
            assert_eq!(from, (4, 4));
            assert_eq!(king, (5, 5));
        },
        other => panic!("expected a check refusal, got {:?}", other),
    }
    // e6 is straight in front of it
    let r = game.play_an((AN::E, 7), (AN::E, 6)).unwrap();
    assert!(r.check.is_none());
    assert_eq!(*game.get_player((5, 4)), Some(Player::Black(Item::King(false))));
}

#[test]
fn the_king_castles_onto_its_rook() {
    let mut game = Game::new();
    assert!(game.play_an((AN::E, 2), (AN::E, 4)).is_ok());
    assert!(game.play_an((AN::E, 7), (AN::E, 5)).is_ok());
    assert!(game.play_an((AN::G, 1), (AN::F, 3)).is_ok());
    assert!(game.play_an((AN::B, 8), (AN::C, 6)).is_ok());
    assert!(game.play_an((AN::F, 1), (AN::C, 4)).is_ok());
    assert!(game.play_an((AN::G, 8), (AN::F, 6)).is_ok());
    let r = game.play((0, 4), (0, 7)).unwrap();
    assert_eq!(r.mt, MoveType::Castle);
    assert_eq!(r.item, Player::White(Item::King(false)));
    assert!(r.cap.is_none());
    assert_eq!(*game.get_player((0, 6)), Some(Player::White(Item::King(true))));
    assert_eq!(*game.get_player((0, 5)), Some(Player::White(Item::Rook(true))));
    assert_eq!(*game.get_player((0, 4)), None);
    assert_eq!(*game.get_player((0, 7)), None);
    assert_eq!(game.get_active(), Player::Black(Item::Pawn));
}

#[test]
fn castling_is_blocked_by_pieces_between() {
    let mut game = Game::new();
    match game.play((0, 4), (0, 0)) {
        Err(MoveIllegal::Blocked(p)) => assert_eq!(p, (0, 3)),
        other => panic!("expected a blocked move, got {:?}", other),
    }
    match game.play((0, 4), (0, 7)) {
        Err(MoveIllegal::Blocked(p)) => assert_eq!(p, (0, 5)),
        other => panic!("expected a blocked move, got {:?}", other),
    }
    assert_eq!(*game.get_player((0, 4)), Some(Player::White(Item::King(false))));
}

#[test]
fn an_en_passant_marker_stands_in_nobodys_way() {
    let mut game = Game::new();
    let moves = [
        ((1, 0), (2, 0)),
        ((6, 0), (4, 0)),
        ((1, 1), (2, 1)),
        ((7, 0), (5, 0)),
        ((1, 2), (2, 2)),
        ((5, 0), (5, 7)),
        ((2, 1), (3, 1)),
        ((5, 7), (2, 7)),
    ];
    for (from, to) in moves.iter() {
        assert!(game.play(*from, *to).is_ok());
    }
    let r = game.play((1, 4), (3, 4)).unwrap();
    assert_eq!(r.mt, MoveType::Double((2, 4)));
    // the black rook slides along row 2 over the marker on (2, 4)
    let r = game.play((2, 7), (2, 3)).unwrap();
    assert_eq!(r.mv, ((2, 7), (2, 3)));
    assert!(r.cap.is_none());
    assert_eq!(*game.get_player((2, 3)), Some(Player::Black(Item::Rook(false))));
}

#[test]
fn no_castling_over_an_attacked_square() {
    let mut game = Game::new();
    assert!(game.play_an((AN::E, 2), (AN::E, 4)).is_ok());
    assert!(game.play_an((AN::B, 7), (AN::B, 6)).is_ok());
    assert!(game.play_an((AN::G, 1), (AN::F, 3)).is_ok());
    assert!(game.play_an((AN::C, 8), (AN::A, 6)).is_ok());
    assert!(game.play_an((AN::G, 2), (AN::G, 3)).is_ok());
    assert!(game.play_an((AN::H, 7), (AN::H, 6)).is_ok());
    assert!(game.play_an((AN::F, 1), (AN::G, 2)).is_ok());
    assert!(game.play_an((AN::H, 6), (AN::H, 5)).is_ok());
    // the bishop on a6 watches f1, which the king would pass over
    match game.play((0, 4), (0, 7)) {
        Err(MoveIllegal::Check(from, square)) => {
            assert_eq!(from, (5, 0));
            assert_eq!(square, (0, 5));
        },
        other => panic!("expected a check refusal, got {:?}", other),
    }
    assert_eq!(*game.get_player((0, 4)), Some(Player::White(Item::King(false))));
    assert_eq!(*game.get_player((0, 7)), Some(Player::White(Item::Rook(false))));
    assert_eq!(game.get_active(), Player::White(Item::Pawn));
}

#[test]
fn no_castling_out_of_check() {
    let mut game = Game::new();
    assert!(game.play_an((AN::G, 2), (AN::G, 3)).is_ok());
    assert!(game.play_an((AN::E, 7), (AN::E, 6)).is_ok());
    assert!(game.play_an((AN::G, 1), (AN::F, 3)).is_ok());
    assert!(game.play_an((AN::A, 7), (AN::A, 6)).is_ok());
    assert!(game.play_an((AN::F, 1), (AN::G, 2)).is_ok());
    assert!(game.play_an((AN::A, 6), (AN::A, 5)).is_ok());
    assert!(game.play_an((AN::D, 2), (AN::D, 4)).is_ok());
    let r = game.play_an((AN::F, 8), (AN::B, 4)).unwrap();
    assert_eq!(r.check, Some(((3, 1), (0, 4))));
    match game.play((0, 4), (0, 7)) {
        Err(MoveIllegal::Check(from, square)) => {
            assert_eq!(from, (3, 1));
            assert_eq!(square, (0, 4));
        },
        other => panic!("expected a check refusal, got {:?}", other),
    }
    assert_eq!(*game.get_player((0, 4)), Some(Player::White(Item::King(false))));
}
