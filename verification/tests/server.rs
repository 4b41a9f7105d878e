use chess::network::{Comm, Games, ServerAction};
use chess::{Item, Player};

#[test]
fn games_take_the_lowest_free_entity_id() {
    let mut games = Games::new();
    assert_eq!(games.insert_with_id(11), 0);
    assert_eq!(games.insert_with_id(22), 1);
    assert_eq!(games.insert_with_id(33), 2);
    games.remove(1);
    assert_eq!(games.find_game(22), None);
    assert_eq!(games.insert_with_id(44), 1);
    assert_eq!(games.find_game(44), Some(1));
    assert_eq!(games.find_game(33), Some(2));
    let e = games.insert();
    assert_eq!(e, 3);
}

#[test]
fn find_game_gives_the_first_match() {
    let mut games = Games::new();
    games.insert_with_id(5);
    games.insert_with_id(9);
    games.insert_with_id(9);
    assert_eq!(games.find_game(9), Some(1));
    assert_eq!(games.find_game(6), None);
}

#[test]
fn first_player_is_white_second_black() {
    let mut games = Games::new();
    let g = games.insert_with_id(1);
    assert_eq!(games.attach(g, 40), (Some(Player::White(Item::Pawn)), None));
    assert_eq!(games.attach(g, 41), (Some(Player::Black(Item::Pawn)), None));
    assert_eq!(games.attach(7, 42), (None, None));
}

#[test]
fn moves_are_passed_to_the_other_player() {
    let mut games = Games::new();
    let g = games.insert_with_id(1);
    games.attach(g, 40);
    // nobody to pass the move to yet
    assert_eq!(games.update(g, ((1, 4), (3, 4)), 40), None);
    games.attach(g, 41);
    assert_eq!(games.update(g, ((6, 4), (4, 4)), 41), Some(40));
    assert_eq!(games.update(g, ((0, 6), (2, 5)), 40), Some(41));
    assert_eq!(games.update(9, ((0, 6), (2, 5)), 40), None);
    // a late joiner learns the last move
    assert_eq!(games.attach(g, 43), (Some(Player::Black(Item::Pawn)), Some(((0, 6), (2, 5)))));
}

#[test]
fn server_answers_messages() {
    let mut games = Games::new();
    // a move without a game disconnects
    assert!(matches!(games.handle(None, 1, Comm::Move((1, 4), (3, 4))), (None, ServerAction::Disconnect)));
    // a new game for player 1
    let (gid, act) = games.handle(None, 1, Comm::StartGame(None));
    assert_eq!(gid, Some(0));
    assert!(matches!(act, ServerAction::Continue));
    // players 1 and 2 join game 0 by its id
    let mut registry = Games::new();
    let g = registry.insert_with_id(77);
    assert!(matches!(registry.handle(None, 1, Comm::StartGame(Some(77))), (Some(0), ServerAction::Continue)));
    assert!(matches!(registry.handle(None, 2, Comm::StartGame(Some(77))), (Some(0), ServerAction::Continue)));
    assert!(matches!(registry.handle(Some(g), 1, Comm::Move((1, 4), (3, 4))), (Some(0), ServerAction::Forward(2))));
    assert!(matches!(registry.handle(Some(g), 2, Comm::Move((6, 4), (4, 4))), (Some(0), ServerAction::Forward(1))));
    assert!(matches!(registry.handle(Some(g), 1, Comm::EndGame), (Some(0), ServerAction::End(Some(1), Some(2)))));
    assert_eq!(registry.find_game(77), None);
    assert!(matches!(registry.handle(None, 1, Comm::EndGame), (None, ServerAction::Disconnect)));
    // an unknown game id changes nothing
    assert!(matches!(registry.handle(None, 3, Comm::StartGame(Some(5))), (None, ServerAction::Continue)));
    assert_eq!(registry.find_game(5), None);
}
