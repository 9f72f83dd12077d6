use game_lobby::authentication::{UserAuth, UserRecovery};
use game_lobby::code::GameCode;
use game_lobby::instance::GameState;
use game_lobby::manager::{DisconnectStep, GameManager, UserDisconnectedStatus, UserRegistrationError};
use game_lobby::request_data::{EventData, UserRegistration};
use std::collections::HashSet;

fn code_of(reg: &UserRegistration) -> GameCode {
    GameCode::from_string(&reg.game_code()).unwrap()
}

fn join(
    m: &mut GameManager,
    events: &mut Vec<EventData>,
    code: GameCode,
    name: &str,
    ur: Option<UserRecovery>,
) -> Result<UserRegistration, UserRegistrationError> {
    m.add_player_to_game(events, code, String::from(name), ur, None)
}

#[test]
fn create_session_makes_owner() {
    let mut m = GameManager::new();
    let reg = m.create_game(String::from("Alice"), None).unwrap();
    let code = code_of(&reg);
    assert!(m.does_game_exist(&code));
    let game = m.game_by_code(code).unwrap();
    assert_eq!(game.players().len(), 1);
    let alice = &game.players()[0];
    assert_eq!(alice.username(), "Alice");
    assert!(alice.is_game_master());
    assert!(alice.user.connected());
    assert_eq!(alice.user_id(), reg.uuid());
    assert_eq!(alice.user.urid(), reg.urid());
    assert_eq!(*game.game_state(), GameState::Lobby);
    let auth = UserAuth::from_uuid(&m, reg.uuid()).unwrap();
    assert_eq!(auth.game_code, code);
}

#[test]
fn join_keeps_order_of_players() {
    let mut m = GameManager::new();
    let mut events = Vec::new();
    let alice = m.create_game(String::from("Alice"), None).unwrap();
    let code = code_of(&alice);
    assert!(m.user_connected(alice.uuid()));
    let bob = join(&mut m, &mut events, code, "Bob", None).ok().unwrap();
    assert!(m.user_connected(bob.uuid()));
    assert_eq!(m.players_in_game(code).unwrap(), vec![String::from("Alice"), String::from("Bob")]);
    assert_ne!(alice.uuid(), bob.uuid());
    assert_eq!(bob.game_code(), code.to_string());
    assert_eq!(events.len(), 1);
    assert_eq!(events[0].game_code(), code.to_string());
    assert_eq!(events[0].user_id(), "");
    assert_eq!(events[0].data(), (String::from("AddPlayer"), Some(String::from("Bob"))));
    let game = m.game_by_code(code).unwrap();
    assert!(!game.players()[1].is_game_master());
}

#[test]
fn players_in_game_lists_connected_only() {
    let mut m = GameManager::new();
    let mut events = Vec::new();
    let alice = m.create_game(String::from("Alice"), None).unwrap();
    let code = code_of(&alice);
    let bob = join(&mut m, &mut events, code, "Bob", None).ok().unwrap();
    assert_eq!(m.players_in_game(code).unwrap(), vec![String::from("Alice"), String::from("Bob")]);
    let auth_b = UserAuth::from_uuid(&m, bob.uuid()).unwrap();
    assert_eq!(m.disconnect_begin(auth_b, false), DisconnectStep::Done(UserDisconnectedStatus::GameAlive));
    assert_eq!(m.players_in_game(code).unwrap(), vec![String::from("Alice")]);
    let game = m.game_by_code(code).unwrap();
    assert_eq!(game.player_names(false), vec![String::from("Alice"), String::from("Bob")]);
    assert_eq!(m.players_in_game(GameCode::from_string("0000-0000").unwrap()), None);
}

#[test]
fn second_join_under_fresh_name_is_taken() {
    let mut m = GameManager::new();
    let mut events = Vec::new();
    let alice = m.create_game(String::from("Alice"), None).unwrap();
    let code = code_of(&alice);
    let bob = join(&mut m, &mut events, code, "Bob", None).ok().unwrap();
    assert!(matches!(join(&mut m, &mut events, code, "Bob", None), Err(UserRegistrationError::NameTaken(_))));
    assert!(matches!(join(&mut m, &mut events, code, "Alice", None), Err(UserRegistrationError::NameTaken(_))));
    assert_eq!(m.game_by_code(code).unwrap().players().len(), 2);
    assert_eq!(events.len(), 1);
    assert_eq!(m.game_by_code(code).unwrap().players()[1].user_id(), bob.uuid());
}

#[test]
fn same_name_while_connected_is_taken() {
    let mut m = GameManager::new();
    let mut events = Vec::new();
    let alice = m.create_game(String::from("Alice"), None).unwrap();
    let code = code_of(&alice);
    let bob = join(&mut m, &mut events, code, "Bob", None).ok().unwrap();
    m.user_connected(bob.uuid());
    match join(&mut m, &mut events, code, "Bob", None) {
        Err(UserRegistrationError::NameTaken(msg)) => assert_eq!(msg, "name_taken"),
        _ => panic!("expected NameTaken"),
    }
    let wrong = UserRecovery::new(alice.urid(), None);
    assert!(matches!(
        join(&mut m, &mut events, code, "Bob", Some(wrong)),
        Err(UserRegistrationError::NameTaken(_))
    ));
    assert_eq!(m.game_by_code(code).unwrap().players().len(), 2);
    assert_eq!(events.len(), 1);
}

#[test]
fn same_name_with_matching_token_gets_registration_back() {
    let mut m = GameManager::new();
    let mut events = Vec::new();
    let alice = m.create_game(String::from("Alice"), None).unwrap();
    let code = code_of(&alice);
    m.user_connected(alice.uuid());
    let ur = UserRecovery::new(alice.urid(), None);
    let again = join(&mut m, &mut events, code, "Alice", Some(ur)).ok().unwrap();
    assert_eq!(again.uuid(), alice.uuid());
    assert_eq!(again.urid(), alice.urid());
    assert_eq!(m.game_by_code(code).unwrap().players().len(), 1);
    assert!(events.is_empty());
}

#[test]
fn join_unknown_game_fails() {
    let mut m = GameManager::new();
    let mut events = Vec::new();
    let code = GameCode::from_string("ABCD-1234").unwrap();
    assert!(matches!(
        join(&mut m, &mut events, code, "Bob", None),
        Err(UserRegistrationError::GameDoesNotExist)
    ));
    assert!(events.is_empty());
}

#[test]
fn join_started_game_fails() {
    let mut m = GameManager::new();
    let mut events = Vec::new();
    let alice = m.create_game(String::from("Alice"), None).unwrap();
    let code = code_of(&alice);
    assert!(m.start_game(code));
    assert!(matches!(
        join(&mut m, &mut events, code, "Bob", None),
        Err(UserRegistrationError::GameAlreadyStarted)
    ));
    assert_eq!(m.game_by_code(code).unwrap().players().len(), 1);
}

#[test]
fn rejoin_while_disconnected_is_idempotent() {
    let mut m = GameManager::new();
    let mut events = Vec::new();
    let alice = m.create_game(String::from("Alice"), None).unwrap();
    let code = code_of(&alice);
    let auth_a = UserAuth::from_uuid(&m, alice.uuid()).unwrap();
    assert_eq!(m.disconnect_begin(auth_a, false), DisconnectStep::RecheckLater);
    let ur = UserRecovery::new(alice.urid(), None);
    let first = join(&mut m, &mut events, code, "Alice", Some(ur)).ok().unwrap();
    let ur = UserRecovery::new(alice.urid(), None);
    let second = join(&mut m, &mut events, code, "Alice", Some(ur)).ok().unwrap();
    assert_eq!(first.uuid(), alice.uuid());
    assert_eq!(second.uuid(), alice.uuid());
    assert_eq!(first.urid(), second.urid());
    assert_eq!(m.game_by_code(code).unwrap().players().len(), 1);
    assert_eq!(events.len(), 2);
    assert_eq!(events[1].data(), (String::from("AddPlayer"), Some(String::from("Alice"))));
}

#[test]
fn game_master_is_unique() {
    let mut m = GameManager::new();
    let mut events = Vec::new();
    let alice = m.create_game(String::from("Alice"), None).unwrap();
    let code = code_of(&alice);
    join(&mut m, &mut events, code, "Bob", None).ok().unwrap();
    join(&mut m, &mut events, code, "Carol", None).ok().unwrap();
    let masters = m.game_by_code(code).unwrap().players().iter().filter(|p| p.is_game_master()).count();
    assert_eq!(masters, 1);
}

#[test]
fn delete_releases_everything() {
    let mut m = GameManager::new();
    let mut events = Vec::new();
    let alice = m.create_game(String::from("Alice"), Some(77)).unwrap();
    let code = code_of(&alice);
    let bob = join(&mut m, &mut events, code, "Bob", None).ok().unwrap();
    assert!(m.delete_game(&code));
    assert!(!m.does_game_exist(&code));
    assert!(UserAuth::from_uuid(&m, alice.uuid()).is_none());
    assert!(UserAuth::from_uuid(&m, bob.uuid()).is_none());
    assert!(m.game_by_uuid(bob.uuid()).is_none());
    assert!(!m.delete_game(&code));
    let next = m.create_game(String::from("Dave"), Some(77)).unwrap();
    assert!(m.does_game_exist(&code_of(&next)));
}

#[test]
fn live_codes_are_distinct() {
    let mut m = GameManager::new();
    let mut codes = HashSet::new();
    for k in 0..200 {
        let reg = m.create_game(format!("P{}", k), None).unwrap();
        assert!(codes.insert(reg.game_code()));
    }
    for c in &codes {
        assert!(m.does_game_exist(&GameCode::from_string(c).unwrap()));
    }
}

#[test]
fn abandoned_game_deleted_after_timeout() {
    let mut m = GameManager::new();
    let mut events = Vec::new();
    let alice = m.create_game(String::from("Alice"), None).unwrap();
    let code = code_of(&alice);
    m.user_connected(alice.uuid());
    let bob = join(&mut m, &mut events, code, "Bob", None).ok().unwrap();
    m.user_connected(bob.uuid());
    let auth_a = UserAuth::from_uuid(&m, alice.uuid()).unwrap();
    let auth_b = UserAuth::from_uuid(&m, bob.uuid()).unwrap();
    assert_eq!(m.disconnect_begin(auth_a, true), DisconnectStep::Done(UserDisconnectedStatus::GameAlive));
    assert!(m.does_game_exist(&code));
    assert_eq!(m.disconnect_begin(auth_b, false), DisconnectStep::RecheckLater);
    assert!(m.does_game_exist(&code));
    assert_eq!(m.disconnect_recheck(code), UserDisconnectedStatus::GameDeleted);
    assert!(!m.does_game_exist(&code));
    assert_eq!(m.disconnect_recheck(code), UserDisconnectedStatus::GameDeleted);
}

#[test]
fn reconnect_within_timeout_keeps_game() {
    let mut m = GameManager::new();
    let mut events = Vec::new();
    let alice = m.create_game(String::from("Alice"), None).unwrap();
    let code = code_of(&alice);
    m.user_connected(alice.uuid());
    let auth_a = UserAuth::from_uuid(&m, alice.uuid()).unwrap();
    assert_eq!(m.disconnect_begin(auth_a, false), DisconnectStep::RecheckLater);
    let ur = UserRecovery::new(alice.urid(), None);
    let back = join(&mut m, &mut events, code, "Alice", Some(ur)).ok().unwrap();
    assert_eq!(back.uuid(), alice.uuid());
    assert_eq!(back.urid(), alice.urid());
    assert!(m.user_connected(back.uuid()));
    assert_eq!(m.disconnect_recheck(code), UserDisconnectedStatus::GameAlive);
    assert!(m.does_game_exist(&code));
}

#[test]
fn leave_last_player_deletes_at_once() {
    let mut m = GameManager::new();
    let alice = m.create_game(String::from("Alice"), None).unwrap();
    let code = code_of(&alice);
    m.user_connected(alice.uuid());
    let auth_a = UserAuth::from_uuid(&m, alice.uuid()).unwrap();
    assert_eq!(m.disconnect_begin(auth_a, true), DisconnectStep::Done(UserDisconnectedStatus::GameDeleted));
    assert!(!m.does_game_exist(&code));
    assert_eq!(m.disconnect_begin(auth_a, true), DisconnectStep::Done(UserDisconnectedStatus::GameDeleted));
}

#[test]
fn user_connected_unknown_id_changes_nothing() {
    let mut m = GameManager::new();
    assert!(!m.user_connected(12345));
    assert!(UserAuth::from_uuid(&m, 12345).is_none());
}

#[test]
fn event_for_one_user_carries_hyphenated_id() {
    let code = GameCode::from_string("ABCD-1234").unwrap();
    let e = EventData::new(
        Some(0x67e5_5044_10b1_426f_9247_bb68_0e5f_e0c8),
        code,
        (String::from("ReloadPlayerList"), None),
    );
    assert_eq!(e.user_id(), "67e55044-10b1-426f-9247-bb680e5fe0c8");
    assert_eq!(e.game_code(), "ABCD-1234");
    assert_eq!(e.data(), (String::from("ReloadPlayerList"), None));
    let z = EventData::new(Some(0), code, (String::from("X"), None));
    assert_eq!(z.user_id(), "00000000-0000-0000-0000-000000000000");
}

#[test]
fn create_with_free_code_uses_it() {
    let mut m = GameManager::new();
    let code = GameCode::from_string("K2M4-P6R8").unwrap();
    assert!(code.is_valid());
    let reg = m.create_game_with_code(code, String::from("Alice"), None).unwrap();
    assert_eq!(reg.game_code(), "K2M4-P6R8");
    assert!(m.does_game_exist(&code));
    let game = m.game_by_uuid(reg.uuid()).unwrap();
    assert_eq!(*game.game_code(), code);
}

#[test]
fn create_with_taken_code_changes_nothing() {
    let mut m = GameManager::new();
    let code = GameCode::from_string("K2M4-P6R8").unwrap();
    let first = m.create_game_with_code(code, String::from("Alice"), None).unwrap();
    assert!(m.create_game_with_code(code, String::from("Bob"), None).is_none());
    let game = m.game_by_code(code).unwrap();
    assert_eq!(game.players().len(), 1);
    assert_eq!(game.players()[0].user_id(), first.uuid());
}

#[test]
fn deleted_code_can_be_taken_again() {
    let mut m = GameManager::new();
    let code = GameCode::from_string("K2M4-P6R8").unwrap();
    m.create_game_with_code(code, String::from("Alice"), None).unwrap();
    assert!(m.delete_game(&code));
    let again = m.create_game_with_code(code, String::from("Bob"), None).unwrap();
    assert_eq!(again.game_code(), "K2M4-P6R8");
}

#[test]
fn joins_from_one_origin_get_distinct_tokens() {
    let mut m = GameManager::new();
    let mut events = Vec::new();
    let alice = m.create_game(String::from("Alice"), Some(5)).unwrap();
    let code = code_of(&alice);
    let bob = m.add_player_to_game(&mut events, code, String::from("Bob"), None, Some(5)).ok().unwrap();
    assert_ne!(alice.urid(), bob.urid());
    m.user_connected(bob.uuid());
    let alice_token = UserRecovery::new(alice.urid(), Some(5));
    assert!(matches!(
        join(&mut m, &mut events, code, "Bob", Some(alice_token)),
        Err(UserRegistrationError::NameTaken(_))
    ));
}
