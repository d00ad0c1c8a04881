use std::collections::HashMap;

use chat_rooms::decimal::usize_to_string;
use chat_rooms::html::{format_html, INDEX_HTML_PART_ONE, INDEX_HTML_PART_TWO};
use chat_rooms::keys::map_keys;
use chat_rooms::transcriptor::{
    clear_old_messages_without_removing_keys, create_initial_room_transcript,
    create_new_room_message, merge_previous_transcript, transcript_file_name, RoomMessage,
    RoomTranscript,
};

fn msg(text: &str) -> RoomMessage {
    RoomMessage { message: String::from(text), sent_at: String::from("t") }
}

fn texts(v: &Vec<RoomMessage>) -> Vec<String> {
    v.iter().map(|m| m.message.clone()).collect()
}

#[test]
fn decimal_rendering_matches_to_string() {
    for n in [0usize, 7, 10, 99, 100, 1234567, usize::MAX] {
        assert_eq!(usize_to_string(n), n.to_string());
    }
}

#[test]
fn transcript_file_names() {
    assert_eq!(transcript_file_name(31), "room31.json");
    assert_eq!(transcript_file_name(0), "room0.json");
}

#[test]
fn format_html_points_the_page_at_the_room() {
    let page = format_html(42);
    let expected = format!(
        "{}{}{}",
        INDEX_HTML_PART_ONE,
        " const uri = 'ws://' + location.host + '/api/chat-room/' + '42'",
        INDEX_HTML_PART_TWO
    );
    assert_eq!(page, expected);
    assert!(page.starts_with("<!DOCTYPE html>"));
}

#[test]
fn new_messages_and_transcripts_carry_a_utc_time() {
    let m = create_new_room_message(String::from("hey"));
    assert_eq!(m.message, "hey");
    assert!(m.sent_at.ends_with(" UTC"));
    let t = create_initial_room_transcript(31);
    assert_eq!(t.id, 31);
    assert!(t.messages.is_empty());
    assert!(t.started_at.ends_with(" UTC"));
}

#[test]
fn merge_puts_saved_messages_after_current_ones() {
    let mut current = RoomTranscript {
        id: 1,
        started_at: String::from("now"),
        messages: HashMap::new(),
    };
    current.messages.insert(1, vec![msg("c1"), msg("c2")]);
    current.messages.insert(2, vec![msg("only current")]);
    let mut previous = RoomTranscript {
        id: 1,
        started_at: String::from("earlier"),
        messages: HashMap::new(),
    };
    previous.messages.insert(1, vec![msg("p1")]);
    previous.messages.insert(3, vec![msg("only saved")]);

    merge_previous_transcript(&mut current, previous);
    assert_eq!(current.started_at, "now");
    assert_eq!(current.messages.len(), 3);
    assert_eq!(texts(current.messages.get(&1).unwrap()), vec!["c1", "c2", "p1"]);
    assert_eq!(texts(current.messages.get(&2).unwrap()), vec!["only current"]);
    assert_eq!(texts(current.messages.get(&3).unwrap()), vec!["only saved"]);
}

#[test]
fn clearing_keeps_every_user() {
    let mut t = RoomTranscript { id: 4, started_at: String::from("s"), messages: HashMap::new() };
    t.messages.insert(1, vec![msg("a")]);
    t.messages.insert(2, Vec::new());
    clear_old_messages_without_removing_keys(&mut t);
    assert_eq!(t.id, 4);
    assert_eq!(t.messages.len(), 2);
    assert!(t.messages.values().all(|v| v.is_empty()));
}

#[test]
fn map_keys_lists_each_key_once() {
    let mut m: HashMap<usize, u8> = HashMap::new();
    m.insert(3, 0);
    m.insert(1, 0);
    let mut keys = map_keys(&m);
    keys.sort();
    assert_eq!(keys, vec![1, 3]);
    let empty: HashMap<usize, u8> = HashMap::new();
    assert!(map_keys(&empty).is_empty());
}

fn has_timestamp_shape(s: &str) -> bool {
    let c: Vec<char> = s.chars().collect();
    let n = c.len();
    if n < 23 || !s.ends_with(" UTC") {
        return false;
    }
    let digit = |i: usize| c[i].is_ascii_digit();
    let date_ok = (0..4).all(digit) && c[4] == '-' && digit(5) && digit(6) && c[7] == '-'
        && digit(8) && digit(9) && c[10] == ' ';
    let time: Vec<char> = c[11..n - 4].to_vec();
    let time_ok = [8usize, 12, 15, 18].contains(&time.len())
        && time[2] == ':'
        && time[5] == ':'
        && [0usize, 1, 3, 4, 6, 7].iter().all(|&i| time[i].is_ascii_digit())
        && (time.len() == 8 || (time[8] == '.' && time[9..].iter().all(|ch| ch.is_ascii_digit())));
    date_ok && time_ok
}

#[test]
fn clock_stamps_have_the_date_time_shape() {
    let m = create_new_room_message(String::from("x"));
    assert!(has_timestamp_shape(&m.sent_at), "{}", m.sent_at);
    let t = create_initial_room_transcript(1);
    assert!(has_timestamp_shape(&t.started_at), "{}", t.started_at);
    assert!(!has_timestamp_shape(" UTC"));
}
