use game_lobby::authentication::{Urid, UserRecovery};
use game_lobby::code::GameCode;
use game_lobby::instance::{GameInstance, GameState};
use game_lobby::player::{Player, User};
use std::collections::HashSet;

fn sample_game() -> GameInstance {
    let code = GameCode::from_string("ABCD-1234").unwrap();
    let mut game = GameInstance::new(code);
    assert!(game.add_user(User::new(String::from("Alice"), 1, Urid::from_uuid(11), code)));
    assert!(game.add_user(User::new(String::from("Bob"), 2, Urid::from_uuid(12), code)));
    game
}

#[test]
fn set_game_master_moves_the_role() {
    let mut game = sample_game();
    assert!(game.set_game_master(1));
    assert!(game.players()[0].is_game_master());
    assert!(!game.players()[1].is_game_master());
    assert!(game.set_game_master(2));
    assert!(!game.players()[0].is_game_master());
    assert!(game.players()[1].is_game_master());
    assert!(!game.set_game_master(3));
    assert!(game.players()[1].is_game_master());
}

#[test]
fn abandoned_once_everyone_disconnects() {
    let mut game = sample_game();
    assert!(!game.abandoned());
    assert!(game.is_player_connected(&String::from("Alice")));
    assert!(game.set_connected(1, false));
    assert!(!game.abandoned());
    assert!(!game.is_player_connected(&String::from("Alice")));
    game.player_by_uuid_mut(2).unwrap().user.set_connected(false);
    assert!(game.abandoned());
    assert!(!game.is_player_connected(&String::from("Bob")));
    assert!(game.user_connected(1));
    assert!(!game.abandoned());
    assert!(!game.user_connected(9));
    assert!(game.player_by_uuid_mut(9).is_none());
}

#[test]
fn empty_game_is_abandoned() {
    let game = GameInstance::new(GameCode::from_string("ZZZZ-0000").unwrap());
    assert!(game.abandoned());
    assert!(game.player_names(false).is_empty());
}

#[test]
fn lookups_by_name_and_id() {
    let game = sample_game();
    assert!(game.does_player_exist(&String::from("Bob")));
    assert!(!game.does_player_exist(&String::from("bob")));
    assert_eq!(game.player_by_uuid(2).unwrap().username(), "Bob");
    assert!(game.player_by_uuid(3).is_none());
    let reg = game.user_registration(&String::from("Bob")).unwrap();
    assert_eq!(reg.uuid(), 2);
    assert_eq!(reg.urid().value(), 12);
    assert_eq!(reg.game_code(), "ABCD-1234");
    assert!(game.user_registration(&String::from("Carol")).is_none());
    let expected: HashSet<u128> = [1u128, 2].into_iter().collect();
    assert_eq!(game.player_uuids(), expected);
    assert_eq!(game.player_urids(), vec![Urid::from_uuid(11), Urid::from_uuid(12)]);
}

#[test]
fn validate_urid_accepts_known_ids_only() {
    let game = sample_game();
    assert!(game.validate_urid(UserRecovery::new(Urid::from_uuid(12), None)));
    assert!(!game.validate_urid(UserRecovery::new(Urid::from_uuid(13), None)));
}

#[test]
fn started_game_refuses_new_users() {
    let mut game = sample_game();
    game.start();
    assert_eq!(*game.game_state(), GameState::Started);
    let code = *game.game_code();
    assert!(!game.add_user(User::new(String::from("Carol"), 3, Urid::from_uuid(13), code)));
    assert_eq!(game.players().len(), 2);
}

#[test]
fn player_roles_toggle() {
    let code = GameCode::from_string("ABCD-1234").unwrap();
    let mut p = Player::new(User::new(String::from("Dana"), 4, Urid::from_uuid(14), code));
    assert!(!p.is_game_master());
    p.make_game_master();
    assert!(p.is_game_master());
    p.revoke_game_master();
    assert!(!p.is_game_master());
    assert_eq!(p.user_id(), 4);
    assert_eq!(p.user.game_code(), code);
    assert_eq!(p.user.name(), "Dana");
    assert_eq!(p.user.uuid(), 4);
}
