//! Per-room transcripts: the messages each user sent, kept in memory and
//! periodically merged with what an earlier save of the transcript held.

use std::collections::HashMap;
use vstd::prelude::*;
use crate::decimal::{char_value, decimal, push_decimal};
use crate::keys::map_keys;

verus! {

broadcast use vstd::std_specs::hash::group_hash_axioms;

/// One chat message together with the time at which it was recorded.
#[derive(Clone)]
pub struct RoomMessage {
    pub message: String,
    pub sent_at: String,
}

/// The transcript of one room: who said what, keyed by user id.
#[derive(Clone)]
pub struct RoomTranscript {
    pub id: usize,
    pub started_at: String,
    pub messages: HashMap<usize, Vec<RoomMessage>>,
}

/// What a transcript holds, as mathematical values.
#[verifier::ext_equal]
pub struct TranscriptView {
    pub id: usize,
    pub started_at: Seq<char>,
    pub messages: Map<usize, Seq<RoomMessage>>,
}

impl View for RoomTranscript {
    type V = TranscriptView;

    open spec fn view(&self) -> TranscriptView {
        TranscriptView {
            id: self.id,
            started_at: self.started_at@,
            messages: self.messages@.map_values(|v: Vec<RoomMessage>| v@),
        }
    }
}

/// Whether `c` is one of the ten decimal digits.
pub open spec fn is_digit(c: char) -> bool {
    c == '0' || c == '1' || c == '2' || c == '3' || c == '4' || c == '5' || c == '6' || c == '7'
        || c == '8' || c == '9'
}

/// Whether every character of `s` is a decimal digit.
pub open spec fn all_digits(s: Seq<char>) -> bool {
    forall|i: int| 0 <= i < s.len() ==> is_digit(#[trigger] s[i])
}

/// Whether `s` holds two digits at `i` whose value lies between `lo` and `hi`.
pub open spec fn two_digits_at(s: Seq<char>, i: int, lo: nat, hi: nat) -> bool {
    &&& 0 <= i && i + 1 < s.len()
    &&& is_digit(s[i])
    &&& is_digit(s[i + 1])
    &&& lo <= char_value(s[i]) * 10 + char_value(s[i + 1]) <= hi
}

/// A year as a date is written: four digits, or a sign and at least four
/// digits for a year outside 0..=9999.
pub open spec fn is_year(y: Seq<char>) -> bool {
    ||| y.len() == 4 && all_digits(y)
    ||| y.len() >= 5 && (y[0] == '+' || y[0] == '-') && all_digits(y.drop_first())
}

/// A date written `<year>-MM-DD`, with a month from 01 to 12 and a day
/// from 01 to 31.
pub open spec fn is_date(d: Seq<char>) -> bool {
    &&& d.len() >= 10
    &&& is_year(d.subrange(0, d.len() - 6))
    &&& d[d.len() - 6] == '-'
    &&& two_digits_at(d, d.len() - 5, 1, 12)
    &&& d[d.len() - 3] == '-'
    &&& two_digits_at(d, d.len() - 2, 1, 31)
}

/// A time of day written `HH:MM:SS`, with an hour up to 23 and a minute and
/// a second up to 59, followed, when the second has a fraction, by `.` and
/// three, six or nine digits.
pub open spec fn is_time(t: Seq<char>) -> bool {
    &&& (t.len() == 8 || t.len() == 12 || t.len() == 15 || t.len() == 18)
    &&& two_digits_at(t, 0, 0, 23)
    &&& t[2] == ':'
    &&& two_digits_at(t, 3, 0, 59)
    &&& t[5] == ':'
    &&& two_digits_at(t, 6, 0, 59)
    &&& t.len() > 8 ==> t[8] == '.' && all_digits(t.subrange(9, t.len() as int))
}

/// A UTC time as it is rendered: a date, a space, a time of day, then " UTC".
pub open spec fn is_utc_timestamp(s: Seq<char>) -> bool {
    &&& s.len() >= 23
    &&& s.subrange(s.len() - 4, s.len() as int) == " UTC"@
    &&& exists|n: int|
        10 <= n && n + 13 <= s.len() && #[trigger] is_date(s.subrange(0, n)) && s[n] == ' '
            && is_time(s.subrange(n + 1, s.len() - 4))
}

/// Reads the system clock: converts `std::time::SystemTime::now()` into a
/// `chrono::DateTime<Utc>` with chrono's `From<SystemTime>`, which accepts
/// instants before the Unix epoch as well as after it, and renders it with
/// `Display`, which writes the date (`YYYY-MM-DD`, the year signed and
/// longer outside 0..=9999), a space, the time of day (`HH:MM:SS`, with
/// `.` and 3, 6 or 9 digits when the second has a fraction) and " UTC".
/// The instant has no leap second, as chrono builds it from a count of
/// seconds and nanoseconds below one second. Which time it is depends on
/// the clock, so only this shape is stated. The conversion
/// fails only for an instant outside chrono's range of about 262,000 years
/// either side of 1970; the system clocks that `SystemTime` reads are kept
/// far inside it (Linux between the years 1678 and 2262, Windows between
/// 1601 and 30828).
#[verifier::external_body]
fn current_utc_timestamp() -> (stamp: String)
    ensures
        is_utc_timestamp(stamp@),
{
    chrono::DateTime::<chrono::Utc>::from(std::time::SystemTime::now()).to_string()
}

/// A new message with the current time as its timestamp.
pub fn create_new_room_message(msg: String) -> (m: RoomMessage)
    ensures
        m.message@ == msg@,
        is_utc_timestamp(m.sent_at@),
{
    RoomMessage { message: msg, sent_at: current_utc_timestamp() }
}

/// A fresh, empty transcript for `room_id`, started now.
pub fn create_initial_room_transcript(room_id: usize) -> (t: RoomTranscript)
    ensures
        t@.id == room_id,
        t@.messages == Map::<usize, Seq<RoomMessage>>::empty(),
        is_utc_timestamp(t@.started_at),
{
    let t = RoomTranscript {
        id: room_id,
        started_at: current_utc_timestamp(),
        messages: HashMap::new(),
    };
    proof {
        assert(t@.messages =~= Map::<usize, Seq<RoomMessage>>::empty());
    }
    t
}

/// The file name under which the transcript of a room is saved.
pub open spec fn transcript_file(room_id: nat) -> Seq<char> {
    "room"@ + decimal(room_id) + ".json"@
}

/// The file name under which the transcript of `room_id` is saved:
/// `room<room_id>.json`.
pub fn transcript_file_name(room_id: usize) -> (name: String)
    ensures
        name@ == transcript_file(room_id as nat),
{
    let mut name = String::from_str("room");
    push_decimal(&mut name, room_id);
    name.append(".json");
    proof {
        assert(name@ =~= transcript_file(room_id as nat));
    }
    name
}

/// The messages of `cur` merged with those of an earlier save `prev`: a user
/// found in both keeps the current messages followed by the saved ones; a
/// user found in one keeps what that one holds.
pub open spec fn merged(
    cur: Map<usize, Seq<RoomMessage>>,
    prev: Map<usize, Seq<RoomMessage>>,
) -> Map<usize, Seq<RoomMessage>> {
    Map::new(
        |k: usize| cur.contains_key(k) || prev.contains_key(k),
        |k: usize|
            if cur.contains_key(k) && prev.contains_key(k) {
                cur[k] + prev[k]
            } else if cur.contains_key(k) {
                cur[k]
            } else {
                prev[k]
            },
    )
}

/// Every user keeps its entry, with no message left under it.
pub open spec fn cleared(m: Map<usize, Seq<RoomMessage>>) -> Map<usize, Seq<RoomMessage>> {
    Map::new(|k: usize| m.contains_key(k), |k: usize| Seq::<RoomMessage>::empty())
}

/// Folds the messages of an earlier save of this transcript into it, as a
/// save does before rewriting the file: for each user of `previous`, its saved
/// messages go after the current ones, or become the user's messages if the
/// user has none in memory. The id and start time stay as they are.
pub fn merge_previous_transcript(transcript: &mut RoomTranscript, previous: RoomTranscript)
    ensures
        final(transcript)@ == (TranscriptView {
            messages: merged(old(transcript)@.messages, previous@.messages),
            ..old(transcript)@
        }),
{
    let ghost cur0 = transcript@.messages;
    let ghost prev0 = previous@.messages;
    let mut previous = previous;
    let keys = map_keys(&previous.messages);
    let mut i: usize = 0;
    while i < keys.len()
        invariant
            0 <= i <= keys.len(),
            keys@.to_set() == prev0.dom(),
            keys@.no_duplicates(),
            transcript.id == old(transcript).id,
            transcript.started_at == old(transcript).started_at,
            transcript@.messages == merged(cur0, prev0.restrict(keys@.take(i as int).to_set())),
            previous@.messages == prev0.remove_keys(keys@.take(i as int).to_set()),
        decreases keys.len() - i,
    {
        let key: usize = keys[i];
        let ghost done = keys@.take(i as int).to_set();
        proof {
            broadcast use vstd::seq_lib::group_seq_properties;
            assert(keys@.take(i as int + 1) =~= keys@.take(i as int).push(key));
            assert(keys@.take(i as int + 1).to_set() =~= done.insert(key));
            assert(!done.contains(key)) by {
                if done.contains(key) {
                    let j: int = choose|j: int| 0 <= j < i && keys@.take(i as int)[j] == key;
                    assert(keys@[j] == keys@[i as int]);
                }
            }
            assert(keys@.to_set().contains(key)) by {
                assert(keys@.contains(key));
            }
        }
        let ghost before_cur = transcript@.messages;
        let ghost before_prev = previous@.messages;
        assert(before_prev.contains_key(key) && before_prev[key] == prev0[key]);
        assert(previous.messages@.contains_key(key));
        assert(before_cur.contains_key(key) == cur0.contains_key(key));
        assert(cur0.contains_key(key) ==> before_cur[key] == cur0[key]);
        let saved = previous.messages.remove(&key);
        assert(previous@.messages =~= before_prev.remove(key));
        match saved {
            Some(mut saved_vec) => {
                assert(saved_vec@ == prev0[key]);
                let current = transcript.messages.remove(&key);
                match current {
                    Some(mut current_vec) => {
                        assert(current_vec@ == cur0[key]);
                        current_vec.append(&mut saved_vec);
                        transcript.messages.insert(key, current_vec);
                        assert(transcript@.messages =~= before_cur.insert(key, cur0[key] + prev0[key]));
                    },
                    None => {
                        assert(!cur0.contains_key(key));
                        transcript.messages.insert(key, saved_vec);
                        assert(transcript@.messages =~= before_cur.insert(key, prev0[key]));
                    },
                }
            },
            None => {
                assert(false);
            },
        }
        proof {
            let done2 = done.insert(key);
            assert(transcript@.messages =~= merged(cur0, prev0.restrict(done2)));
            assert(previous@.messages =~= prev0.remove_keys(done2));
        }
        i = i + 1;
    }
    proof {
        assert(keys@.take(keys@.len() as int) =~= keys@);
        assert(prev0.restrict(keys@.to_set()) =~= prev0);
    }
}

/// Clearing keeps exactly the users it was given and leaves no message
/// under any of them.
pub proof fn lemma_cleared_lists_are_empty(m: Map<usize, Seq<RoomMessage>>)
    ensures
        cleared(m).dom() == m.dom(),
        forall|k: usize| #[trigger] cleared(m).contains_key(k) ==> cleared(m)[k].len() == 0,
{
    assert(cleared(m).dom() =~= m.dom());
}

/// Empties every user's message list while keeping every user's entry, as a
/// save does once the messages are on disk.
pub fn clear_old_messages_without_removing_keys(transcript: &mut RoomTranscript)
    ensures
        final(transcript)@ == (TranscriptView {
            messages: cleared(old(transcript)@.messages),
            ..old(transcript)@
        }),
        final(transcript)@.messages.dom() == old(transcript)@.messages.dom(),
        forall|k: usize| #[trigger]
            final(transcript)@.messages.contains_key(k) ==> final(transcript)@.messages[k].len()
                == 0,
{
    let ghost cur0 = transcript@.messages;
    let keys = map_keys(&transcript.messages);
    let mut i: usize = 0;
    while i < keys.len()
        invariant
            0 <= i <= keys.len(),
            keys@.to_set() == cur0.dom(),
            keys@.no_duplicates(),
            transcript.id == old(transcript).id,
            transcript.started_at == old(transcript).started_at,
            transcript@.messages == Map::new(
                |k: usize| cur0.contains_key(k),
                |k: usize|
                    if keys@.take(i as int).contains(k) {
                        Seq::<RoomMessage>::empty()
                    } else {
                        cur0[k]
                    },
            ),
        decreases keys.len() - i,
    {
        let key: usize = keys[i];
        proof {
            broadcast use vstd::seq_lib::group_seq_properties;
            assert(keys@.take(i as int + 1) =~= keys@.take(i as int).push(key));
            assert(keys@.contains(key));
        }
        let ghost pre = transcript.messages@;
        let ghost before = transcript@.messages;
        assert(transcript@.messages.contains_key(key));
        let current = transcript.messages.remove(&key);
        match current {
            Some(mut v) => {
                v.clear();
                transcript.messages.insert(key, v);
                assert(transcript@.messages =~= before.insert(key, Seq::<RoomMessage>::empty()));
            },
            None => {
                assert(false);
            },
        }
        proof {
            broadcast use vstd::seq_lib::group_seq_properties;
            assert forall|k: usize| k != key implies
                (keys@.take(i as int + 1).contains(k) == keys@.take(i as int).contains(k)) by {
                assert(keys@.take(i as int + 1) == keys@.take(i as int).push(key));
            }
            assert(transcript@.messages =~= Map::new(
                |k: usize| cur0.contains_key(k),
                |k: usize|
                    if keys@.take(i as int + 1).contains(k) {
                        Seq::<RoomMessage>::empty()
                    } else {
                        cur0[k]
                    },
            ));
        }
        i = i + 1;
    }
    proof {
        assert(keys@.take(keys@.len() as int) =~= keys@);
        assert(transcript@.messages =~= cleared(cur0));
        lemma_cleared_lists_are_empty(cur0);
    }
}

} // verus!
