use chess::{Item, MoveType, Player};

const W_KNIGHT: Player = Player::White(Item::Knight);
const B_BISHOP: Player = Player::Black(Item::Bishop);

#[test]
fn knight_jumps() {
    assert_eq!(W_KNIGHT.play_isvalid((0, 1), (2, 2), false), Some(MoveType::Regular));
    assert_eq!(W_KNIGHT.play_isvalid((0, 1), (1, 3), false), Some(MoveType::Regular));
    assert_eq!(W_KNIGHT.play_isvalid((0, 1), (2, 3), false), None);
    assert_eq!(W_KNIGHT.play_isvalid((0, 1), (0, 1), false), None);
    assert_eq!(W_KNIGHT.play_path((0, 1), (2, 2)), vec![(2, 2)]);
}

#[test]
fn bishop_moves_along_diagonals() {
    assert_eq!(B_BISHOP.play_isvalid((7, 2), (4, 5), false), Some(MoveType::Regular));
    assert_eq!(B_BISHOP.play_isvalid((7, 2), (4, 4), false), None);
    assert_eq!(B_BISHOP.play_path((7, 2), (4, 5)), vec![(6, 3), (5, 4), (4, 5)]);
    assert_eq!(B_BISHOP.play_path((2, 3), (5, 0)), vec![(3, 2), (4, 1), (5, 0)]);
}

#[test]
fn rook_moves_along_lines_and_never_castles() {
    let rook = Player::White(Item::Rook(false));
    assert_eq!(rook.play_isvalid((0, 0), (5, 0), false), Some(MoveType::Regular));
    assert_eq!(rook.play_isvalid((0, 7), (0, 4), false), Some(MoveType::Regular));
    assert_eq!(rook.play_isvalid((0, 0), (7, 4), false), None);
    assert_eq!(rook.play_path((0, 0), (3, 0)), vec![(1, 0), (2, 0), (3, 0)]);
    assert_eq!(rook.play_path((7, 0), (4, 0)), vec![(6, 0), (5, 0), (4, 0)]);
    assert_eq!(rook.play_path((3, 6), (3, 3)), vec![(3, 5), (3, 4), (3, 3)]);
}

#[test]
fn king_steps_one_square_or_castles() {
    let king = Player::Black(Item::King(false));
    assert_eq!(king.play_isvalid((7, 4), (6, 4), false), Some(MoveType::Regular));
    assert_eq!(king.play_isvalid((7, 4), (6, 5), true), Some(MoveType::Regular));
    assert_eq!(king.play_isvalid((3, 3), (3, 4), false), Some(MoveType::Regular));
    // one square only: not two columns away, not two rows away
    assert_eq!(king.play_isvalid((3, 3), (3, 6), false), None);
    assert_eq!(king.play_isvalid((7, 4), (7, 6), false), None);
    assert_eq!(king.play_isvalid((7, 4), (5, 4), false), None);
    // an unmoved king castles from its square onto a corner of its home row
    assert_eq!(king.play_isvalid((7, 4), (7, 7), false), Some(MoveType::Castle));
    assert_eq!(king.play_isvalid((7, 4), (7, 0), false), Some(MoveType::Castle));
    assert_eq!(Player::White(Item::King(false)).play_isvalid((0, 4), (0, 7), false), Some(MoveType::Castle));
    // a king that has moved does not, nor does one off its home square
    assert_eq!(Player::Black(Item::King(true)).play_isvalid((7, 4), (7, 7), false), None);
    assert_eq!(king.play_isvalid((6, 4), (6, 7), false), None);
    // a king's path is its destination alone, castling too
    assert_eq!(king.play_path((7, 4), (7, 7)), vec![(7, 7)]);
    assert_eq!(king.play_path((7, 4), (6, 5)), vec![(6, 5)]);
}

#[test]
fn queen_moves_along_lines_and_diagonals() {
    let queen = Player::White(Item::Queen);
    assert_eq!(queen.play_isvalid((0, 3), (4, 7), false), Some(MoveType::Regular));
    assert_eq!(queen.play_isvalid((0, 3), (6, 3), false), Some(MoveType::Regular));
    assert_eq!(queen.play_isvalid((0, 3), (1, 4), false), Some(MoveType::Regular));
    assert_eq!(queen.play_isvalid((0, 3), (0, 0), false), Some(MoveType::Regular));
    // a near row is not enough
    assert_eq!(queen.play_isvalid((0, 3), (1, 6), false), None);
    assert_eq!(queen.play_isvalid((0, 3), (1, 7), false), None);
    assert_eq!(queen.play_isvalid((0, 3), (2, 4), false), None);
    assert_eq!(queen.play_path((0, 3), (4, 7)), vec![(1, 4), (2, 5), (3, 6), (4, 7)]);
    assert_eq!(queen.play_path((0, 3), (1, 4)), vec![(1, 4)]);
}

#[test]
fn pawns_step_forward_and_take_diagonally() {
    let white = Player::White(Item::Pawn);
    let black = Player::Black(Item::Pawn);
    assert_eq!(white.play_isvalid((1, 4), (2, 4), false), Some(MoveType::Regular));
    assert_eq!(white.play_isvalid((1, 4), (3, 4), false), Some(MoveType::Double((2, 4))));
    assert_eq!(white.play_isvalid((2, 4), (4, 4), false), None);
    assert_eq!(white.play_isvalid((1, 4), (2, 5), false), None);
    assert_eq!(white.play_isvalid((1, 4), (2, 5), true), Some(MoveType::Regular));
    assert_eq!(white.play_isvalid((1, 4), (0, 4), false), None);
    assert_eq!(black.play_isvalid((6, 2), (4, 2), false), Some(MoveType::Double((5, 2))));
    assert_eq!(black.play_isvalid((6, 2), (5, 2), false), Some(MoveType::Regular));
    assert_eq!(black.play_isvalid((6, 2), (5, 1), true), Some(MoveType::Regular));
    assert_eq!(black.play_isvalid((6, 2), (7, 2), false), None);
    // a straight step never takes
    assert_eq!(white.play_isvalid((1, 4), (2, 4), true), None);
    assert_eq!(white.play_isvalid((1, 4), (3, 4), true), None);
    assert_eq!(black.play_isvalid((6, 2), (5, 2), true), None);
    // a pawn's path is its destination alone
    assert_eq!(white.play_path((1, 4), (3, 4)), vec![(3, 4)]);
    assert_eq!(white.play_path((1, 0), (3, 0)), vec![(3, 0)]);
    assert_eq!(white.play_path((1, 4), (2, 5)), vec![(2, 5)]);
    assert_eq!(black.play_path((6, 2), (4, 2)), vec![(4, 2)]);
}

#[test]
fn black_pawns_move_as_white_ones_seen_from_the_other_end() {
    let white = Player::White(Item::Pawn);
    let black = Player::Black(Item::Pawn);
    let m = |p: (i8, i8)| (7 - p.0, p.1);
    for fr in 0..8i8 {
        for fc in 0..8i8 {
            for tr in 0..8i8 {
                for tc in 0..8i8 {
                    for capturing in [false, true] {
                        let from = (fr, fc);
                        let to = (tr, tc);
                        let mirrored = match white.play_isvalid(m(from), m(to), capturing) {
                            Some(MoveType::Double(q)) => Some(MoveType::Double(m(q))),
                            other => other,
                        };
                        assert_eq!(black.play_isvalid(from, to, capturing), mirrored);
                    }
                }
            }
        }
    }
}

#[test]
fn marker_has_no_move() {
    let marker = Player::White(Item::EnPass((3, 4)));
    assert_eq!(marker.play_isvalid((2, 4), (3, 4), true), None);
    assert_eq!(marker.play_path((2, 4), (3, 4)), vec![(3, 4)]);
}

#[test]
fn castle_path_names_king_and_rook_squares() {
    assert_eq!(Player::White(Item::King(false)).castle_path((0, 4), (0, 7)), ((0, 6), (0, 5)));
    assert_eq!(Player::White(Item::King(false)).castle_path((0, 4), (0, 0)), ((0, 2), (0, 3)));
    assert_eq!(Player::White(Item::Rook(false)).castle_path((0, 7), (0, 4)), ((0, 6), (0, 5)));
    assert_eq!(Player::Black(Item::Rook(false)).castle_path((7, 0), (7, 4)), ((7, 2), (7, 3)));
    assert_eq!(Player::Black(Item::King(false)).castle_path((7, 4), (7, 7)), ((7, 6), (7, 5)));
}

#[test]
fn pieces_compare_by_side_and_kind() {
    assert_eq!(Player::White(Item::Rook(true)), Player::White(Item::Rook(true)));
    assert_ne!(Player::White(Item::Rook(true)), Player::White(Item::Rook(false)));
    assert_ne!(Player::White(Item::Pawn), Player::Black(Item::Pawn));
    assert_eq!(Item::EnPass((2, 3)), Item::EnPass((2, 3)));
    assert_ne!(Item::EnPass((2, 3)), Item::EnPass((2, 4)));
    assert!(Player::White(Item::Queen).is_white());
    assert_eq!(Player::Black(Item::Queen).get_item(), Item::Queen);
}
