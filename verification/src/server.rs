//! What the server does with a user's messages and with its departure.

use vstd::prelude::*;
use crate::chat::{broadcast_message_to_room, delivers_to_room, is_recipient};
use crate::keys::map_keys;
use crate::rooms::{
    add_user_to_room, clean_up_room_if_empty, create_room_if_not_present, remove_user_from_room,
    remove_user_from_room_transcripts,
};
use crate::decimal::{decimal_value, lemma_decimal_value};
use crate::state::{ServerState, StateView};
use crate::transcriptor::{create_new_room_message, is_utc_timestamp, RoomMessage, TranscriptView};
use crate::users::{add_user_to_state, remove_user_from_state};

verus! {

broadcast use vstd::std_specs::hash::group_hash_axioms;

/// The line that other users see when a user named `name` says `msg`.
pub open spec fn chat_line(name: Seq<char>, msg: Seq<char>) -> Seq<char> {
    "<User#"@ + name + ">: "@ + msg
}

/// A chat line is `<User#`, the whole screen name, `>: ` and the whole text,
/// each where it belongs.
pub proof fn lemma_chat_line_parts(name: Seq<char>, msg: Seq<char>)
    ensures
        ({
            let line = chat_line(name, msg);
            let n = name.len() as int;
            &&& line.len() == n + msg.len() + 9
            &&& line.subrange(0, 6) == "<User#"@
            &&& line.subrange(6, 6 + n) == name
            &&& line.subrange(6 + n, 9 + n) == ">: "@
            &&& line.subrange(9 + n, line.len() as int) == msg
        }),
{
    reveal_strlit("<User#");
    reveal_strlit(">: ");
    let line = chat_line(name, msg);
    let n = name.len() as int;
    assert(line.subrange(0, 6) =~= "<User#"@);
    assert(line.subrange(6, 6 + n) =~= name);
    assert(line.subrange(6 + n, 9 + n) =~= ">: "@);
    assert(line.subrange(9 + n, line.len() as int) =~= msg);
}

/// In a well-formed state, the name in the line sent for a connected user
/// reads back as that user's id.
pub proof fn lemma_chat_line_names_sender<P>(s: StateView<P>, user_id: usize, msg: Seq<char>)
    requires
        s.wf(),
        s.users.contains_key(user_id),
    ensures
        decimal_value(chat_line(s.users[user_id], msg).subrange(6, 6 + s.users[user_id].len() as int)) == user_id,
{
    lemma_chat_line_parts(s.users[user_id], msg);
    lemma_decimal_value(user_id as nat);
}

/// Handles text `msg` sent by user `my_id` in room `room_id`: records it,
/// with the current time, at the end of the user's messages in the room's
/// transcript, and returns the copies of `<User#name>: msg` to send to the
/// other users of the room.
pub fn handle_user_message<P>(
    my_id: &usize,
    room_id: &usize,
    msg: String,
    state: &mut ServerState<P>,
) -> (deliveries: Vec<(usize, String)>)
    requires
        old(state)@.users.contains_key(*my_id),
        old(state)@.transcripts.contains_key(*room_id),
        old(state)@.transcripts[*room_id].messages.contains_key(*my_id),
        old(state)@.rooms.contains_key(*room_id),
    ensures
        ({
            let recorded = final(state)@.transcripts[*room_id].messages[*my_id].last();
            &&& final(state)@ == old(state)@.with_message(*room_id, *my_id, recorded)
            &&& recorded.message@ == msg@
            &&& is_utc_timestamp(recorded.sent_at@)
        }),
        delivers_to_room(
            old(state)@,
            *room_id,
            *my_id,
            chat_line(old(state)@.users[*my_id], msg@),
            deliveries@,
        ),
        old(state)@.wf() ==> final(state)@.wf(),
        old(state)@.members_have_message_lists() ==> final(state)@.members_have_message_lists(),
{
    let room_msg = create_new_room_message(msg);
    record_room_message(my_id, room_id, room_msg, state)
}

/// Records `room_msg`, said by user `my_id` in room `room_id`, at the end of
/// the user's messages in the room's transcript, and returns the copies of
/// `<User#name>: text` to send to the other users of the room.
pub fn record_room_message<P>(
    my_id: &usize,
    room_id: &usize,
    room_msg: RoomMessage,
    state: &mut ServerState<P>,
) -> (deliveries: Vec<(usize, String)>)
    requires
        old(state)@.users.contains_key(*my_id),
        old(state)@.transcripts.contains_key(*room_id),
        old(state)@.transcripts[*room_id].messages.contains_key(*my_id),
        old(state)@.rooms.contains_key(*room_id),
    ensures
        final(state)@ == old(state)@.with_message(*room_id, *my_id, room_msg),
        final(state)@.transcripts[*room_id].messages[*my_id].last() == room_msg,
        delivers_to_room(
            old(state)@,
            *room_id,
            *my_id,
            chat_line(old(state)@.users[*my_id], room_msg.message@),
            deliveries@,
        ),
        old(state)@.wf() ==> final(state)@.wf(),
        old(state)@.members_have_message_lists() ==> final(state)@.members_have_message_lists(),
{
    let ghost s0 = state@;
    let ghost recorded = room_msg;
    let screen_name = match state.active_users.get(my_id) {
        Some(user) => user.screen_name.clone(),
        None => {
            proof {
                assert(false);
            }
            return Vec::new();
        },
    };
    let mut new_msg = String::from_str("<User#");
    new_msg.append(screen_name.as_str());
    new_msg.append(">: ");
    new_msg.append(room_msg.message.as_str());
    proof {
        assert(new_msg@ =~= chat_line(s0.users[*my_id], recorded.message@));
    }
    let transcript = state.room_transcripts.remove(room_id);
    match transcript {
        Some(mut transcript) => {
            let ghost t0 = transcript@;
            let user_messages = transcript.messages.remove(my_id);
            match user_messages {
                Some(mut user_messages) => {
                    user_messages.push(room_msg);
                    transcript.messages.insert(*my_id, user_messages);
                },
                None => {},
            }
            proof {
                assert(transcript@.messages =~= t0.messages.insert(
                    *my_id,
                    t0.messages[*my_id].push(recorded),
                ));
            }
            state.room_transcripts.insert(*room_id, transcript);
        },
        None => {},
    }
    proof {
        assert(state@ =~= s0.with_message(*room_id, *my_id, recorded));
        assert(state@.transcripts[*room_id].messages[*my_id].last() == recorded);
    }
    let deliveries = broadcast_message_to_room(room_id, new_msg, state, my_id);
    proof {
        assert(state@.rooms == s0.rooms);
        assert(state@.peers == s0.peers);
        assert forall|u: usize| #[trigger] is_recipient(s0, *room_id, *my_id, u) implies exists|i: int|
            0 <= i < deliveries@.len() && #[trigger] deliveries@[i].0 == u by {
            assert(is_recipient(state@, *room_id, *my_id, u));
        }
    }
    deliveries
}

/// Handles the arrival of user `my_id` in room `room_id` with `tx` as its
/// channel: opens the room, empty and with a fresh transcript started now,
/// unless it is open already; records the user, named by its id; and puts
/// the user in the room with an empty message list. Returns whether it
/// opened the room.
pub fn handle_user_join<P>(my_id: &usize, room_id: &usize, tx: P, state: &mut ServerState<P>) -> (created: bool)
    requires
        old(state)@.rooms.contains_key(*room_id) ==> old(state)@.transcripts.contains_key(*room_id),
    ensures
        created == !old(state)@.rooms.contains_key(*room_id),
        final(state)@ == old(state)@.with_room(
            *room_id,
            TranscriptView {
                id: *room_id,
                started_at: final(state)@.transcripts[*room_id].started_at,
                messages: Map::empty(),
            },
        ).with_user(*my_id, tx).with_user_in_room(*my_id, *room_id),
        created ==> is_utc_timestamp(final(state)@.transcripts[*room_id].started_at),
        old(state)@.wf() ==> final(state)@.wf(),
        old(state)@.members_have_message_lists() ==> final(state)@.members_have_message_lists(),
{
    let ghost s0 = state@;
    let created = create_room_if_not_present(room_id, state);
    let ghost s1 = state@;
    add_user_to_state(my_id, state, tx);
    let ghost s2 = state@;
    add_user_to_room(my_id, room_id, state);
    proof {
        let opened = TranscriptView {
            id: *room_id,
            started_at: state@.transcripts[*room_id].started_at,
            messages: Map::empty(),
        };
        if created {
            assert(s1.transcripts[*room_id] =~= opened);
        }
        assert(s1 == s0.with_room(*room_id, opened));
    }
    created
}

/// Handles the departure of user `my_id` from room `room_id`: forgets the
/// user and its channel, drops its messages from the room's transcript,
/// takes it out of the room, and closes the room if that left it empty.
/// Returns whether the room was closed.
pub fn handle_user_disconnection<P>(my_id: &usize, room_id: &usize, state: &mut ServerState<P>) -> (closed: bool)
    requires
        old(state)@.rooms.contains_key(*room_id),
        old(state)@.transcripts.contains_key(*room_id),
    ensures
        final(state)@ == old(state)@.disconnected(*my_id, *room_id),
        closed == (old(state)@.rooms[*room_id].remove(*my_id).len() == 0),
        closed <==> !final(state)@.rooms.contains_key(*room_id),
        old(state)@.wf() ==> final(state)@.wf(),
        old(state)@.members_have_message_lists() ==> final(state)@.members_have_message_lists(),
{
    remove_user_from_state(my_id, state);
    remove_user_from_room_transcripts(room_id, my_id, state);
    remove_user_from_room(room_id, my_id, state);
    clean_up_room_if_empty(room_id, state)
}

/// The ids of the open rooms, each once.
pub fn room_ids<P>(state: &ServerState<P>) -> (ids: Vec<usize>)
    ensures
        ids@.to_set() == state@.rooms.dom(),
        ids@.no_duplicates(),
{
    map_keys(&state.rooms)
}

} // verus!
