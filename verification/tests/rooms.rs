use chat_rooms::rooms::{
    add_user_to_room, clean_up_room_if_empty, create_room_if_not_present, remove_user_from_room,
    remove_user_from_room_transcripts,
};
use chat_rooms::server::{handle_user_disconnection, room_ids};
use chat_rooms::state::ServerState;
use chat_rooms::users::{add_user_to_state, remove_user_from_state};

#[test]
fn test_room_logic() {
    let mut state: ServerState<()> = ServerState::new();

    // adding a room also creates its transcript
    let mock_room_id: usize = 31;
    assert_eq!(state.rooms.len(), 0);
    assert_eq!(state.room_transcripts.len(), 0);
    create_room_if_not_present(&mock_room_id, &mut state);
    assert_eq!(state.rooms.len(), 1);
    assert_eq!(state.room_transcripts.len(), 1);

    // duplicate detection
    create_room_if_not_present(&mock_room_id, &mut state);
    assert_eq!(state.rooms.len(), 1);
    assert_eq!(state.room_transcripts.len(), 1);

    // adding a user to a room
    let mock_user_id: usize = 32;
    assert_eq!(
        state.rooms.get(&mock_room_id).unwrap().user_ids.contains(&mock_user_id),
        false
    );
    add_user_to_room(&mock_user_id, &mock_room_id, &mut state);
    assert_eq!(
        state.rooms.get(&mock_room_id).unwrap().user_ids.contains(&mock_user_id),
        true
    );

    // rooms get cleaned up
    state.rooms.get_mut(&mock_room_id).unwrap().user_ids.remove(&mock_user_id);
    clean_up_room_if_empty(&mock_room_id, &mut state);
    assert_eq!(state.rooms.len(), 0);
}

#[test]
fn create_room_reports_whether_it_opened_one() {
    let mut state: ServerState<()> = ServerState::new();
    assert!(create_room_if_not_present(&5, &mut state));
    assert!(!create_room_if_not_present(&5, &mut state));
    let t = state.room_transcripts.get(&5).unwrap();
    assert_eq!(t.id, 5);
    assert!(t.messages.is_empty());
    assert!(t.started_at.ends_with(" UTC"));
    assert!(state.rooms.get(&5).unwrap().user_ids.is_empty());
}

#[test]
fn add_user_to_room_resets_its_message_list() {
    let mut state: ServerState<()> = ServerState::new();
    create_room_if_not_present(&1, &mut state);
    add_user_to_room(&9, &1, &mut state);
    assert_eq!(state.room_transcripts.get(&1).unwrap().messages.get(&9).unwrap().len(), 0);
    state
        .room_transcripts
        .get_mut(&1)
        .unwrap()
        .messages
        .get_mut(&9)
        .unwrap()
        .push(chat_rooms::transcriptor::create_new_room_message(String::from("x")));
    add_user_to_room(&9, &1, &mut state);
    assert_eq!(state.room_transcripts.get(&1).unwrap().messages.get(&9).unwrap().len(), 0);
}

#[test]
fn clean_up_keeps_an_occupied_room() {
    let mut state: ServerState<()> = ServerState::new();
    create_room_if_not_present(&2, &mut state);
    add_user_to_room(&4, &2, &mut state);
    assert!(!clean_up_room_if_empty(&2, &mut state));
    assert_eq!(state.rooms.len(), 1);
    assert_eq!(state.room_transcripts.len(), 1);
    remove_user_from_room(&2, &4, &mut state);
    assert!(clean_up_room_if_empty(&2, &mut state));
    assert_eq!(state.rooms.len(), 0);
    assert_eq!(state.room_transcripts.len(), 0);
}

#[test]
fn remove_user_from_transcript_drops_only_that_user() {
    let mut state: ServerState<()> = ServerState::new();
    create_room_if_not_present(&3, &mut state);
    add_user_to_room(&1, &3, &mut state);
    add_user_to_room(&2, &3, &mut state);
    remove_user_from_room_transcripts(&3, &1, &mut state);
    let t = state.room_transcripts.get(&3).unwrap();
    assert!(!t.messages.contains_key(&1));
    assert!(t.messages.contains_key(&2));
    // the user stays in the room itself
    assert!(state.rooms.get(&3).unwrap().user_ids.contains(&1));
}

#[test]
fn users_are_named_by_their_id() {
    let mut state: ServerState<u8> = ServerState::new();
    add_user_to_state(&32, &mut state, 7);
    assert_eq!(state.active_users.get(&32).unwrap().screen_name, "32");
    assert_eq!(*state.peer_map.get(&32).unwrap(), 7);
    remove_user_from_state(&32, &mut state);
    assert!(state.active_users.is_empty());
    assert!(state.peer_map.is_empty());
}

#[test]
fn last_user_leaving_closes_the_room() {
    let mut state: ServerState<u8> = ServerState::new();
    create_room_if_not_present(&1, &mut state);
    add_user_to_state(&10, &mut state, 0);
    add_user_to_room(&10, &1, &mut state);
    add_user_to_state(&11, &mut state, 1);
    add_user_to_room(&11, &1, &mut state);

    assert!(!handle_user_disconnection(&10, &1, &mut state));
    assert_eq!(state.rooms.len(), 1);
    assert!(!state.active_users.contains_key(&10));
    assert!(!state.room_transcripts.get(&1).unwrap().messages.contains_key(&10));

    assert!(handle_user_disconnection(&11, &1, &mut state));
    assert!(state.rooms.is_empty());
    assert!(state.room_transcripts.is_empty());
    assert!(state.active_users.is_empty());
    assert!(state.peer_map.is_empty());
}

#[test]
fn joining_then_leaving_restores_the_state() {
    let mut state: ServerState<u8> = ServerState::new();
    create_room_if_not_present(&7, &mut state);
    add_user_to_state(&1, &mut state, 1);
    add_user_to_room(&1, &7, &mut state);

    create_room_if_not_present(&8, &mut state);
    add_user_to_state(&2, &mut state, 2);
    add_user_to_room(&2, &8, &mut state);
    handle_user_disconnection(&2, &8, &mut state);

    assert_eq!(room_ids(&state), vec![7]);
    assert_eq!(state.active_users.len(), 1);
    assert_eq!(state.peer_map.len(), 1);
    assert_eq!(state.room_transcripts.len(), 1);
}

#[test]
fn room_ids_lists_each_room_once() {
    let mut state: ServerState<()> = ServerState::new();
    for r in [4usize, 1, 9, 4] {
        create_room_if_not_present(&r, &mut state);
    }
    let mut ids = room_ids(&state);
    ids.sort();
    assert_eq!(ids, vec![1, 4, 9]);
}

#[test]
fn open_room_uses_the_given_transcript() {
    let mut state: ServerState<()> = ServerState::new();
    let t = chat_rooms::transcriptor::RoomTranscript {
        id: 6,
        started_at: String::from("then"),
        messages: std::collections::HashMap::new(),
    };
    assert!(chat_rooms::rooms::open_room(&6, t.clone(), &mut state));
    assert_eq!(state.room_transcripts.get(&6).unwrap().started_at, "then");
    let other = chat_rooms::transcriptor::RoomTranscript {
        id: 6,
        started_at: String::from("later"),
        messages: std::collections::HashMap::new(),
    };
    assert!(!chat_rooms::rooms::open_room(&6, other, &mut state));
    assert_eq!(state.room_transcripts.get(&6).unwrap().started_at, "then");
}

#[test]
fn every_member_has_a_message_list() {
    let mut state: ServerState<u8> = ServerState::new();
    for (user, room) in [(1usize, 10usize), (2, 10), (3, 11)] {
        create_room_if_not_present(&room, &mut state);
        add_user_to_state(&user, &mut state, 0);
        add_user_to_room(&user, &room, &mut state);
    }
    handle_user_disconnection(&2, &10, &mut state);
    for (room_id, room) in state.rooms.iter() {
        let transcript = state.room_transcripts.get(room_id).unwrap();
        for user in room.user_ids.iter() {
            assert!(transcript.messages.contains_key(user));
        }
    }
}

#[test]
fn joining_opens_the_room_and_adds_the_user() {
    let mut state: ServerState<u8> = ServerState::new();
    assert!(chat_rooms::server::handle_user_join(&1, &5, 9, &mut state));
    assert!(state.rooms.get(&5).unwrap().user_ids.contains(&1));
    assert_eq!(state.active_users.get(&1).unwrap().screen_name, "1");
    assert_eq!(*state.peer_map.get(&1).unwrap(), 9);
    let t = state.room_transcripts.get(&5).unwrap();
    assert_eq!(t.id, 5);
    assert!(t.messages.get(&1).unwrap().is_empty());

    assert!(!chat_rooms::server::handle_user_join(&2, &5, 8, &mut state));
    assert_eq!(state.rooms.get(&5).unwrap().user_ids.len(), 2);
    assert_eq!(state.rooms.len(), 1);

    handle_user_disconnection(&1, &5, &mut state);
    handle_user_disconnection(&2, &5, &mut state);
    assert!(state.rooms.is_empty());
    assert!(state.room_transcripts.is_empty());
    assert!(state.active_users.is_empty());
    assert!(state.peer_map.is_empty());
}
