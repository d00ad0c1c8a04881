//! Opening and closing rooms, and moving users in and out of them.

use std::collections::HashSet;
use vstd::prelude::*;
use crate::state::ServerState;
use crate::state_types::Room;
use crate::transcriptor::{create_initial_room_transcript, is_utc_timestamp, RoomMessage, RoomTranscript};

verus! {

broadcast use vstd::std_specs::hash::group_hash_axioms;

/// Puts user `user_id` in room `room_id` and gives it an empty message list
/// in the room's transcript (replacing one it may have had).
pub fn add_user_to_room<P>(user_id: &usize, room_id: &usize, state: &mut ServerState<P>)
    requires
        old(state)@.rooms.contains_key(*room_id),
        old(state)@.transcripts.contains_key(*room_id),
    ensures
        final(state)@ == old(state)@.with_user_in_room(*user_id, *room_id),
        old(state)@.wf() ==> final(state)@.wf(),
        old(state)@.members_have_message_lists() ==> final(state)@.members_have_message_lists(),
{
    let ghost s0 = state@;
    let room = state.rooms.remove(room_id);
    match room {
        Some(mut room) => {
            room.user_ids.insert(*user_id);
            state.rooms.insert(*room_id, room);
        },
        None => {},
    }
    let transcript = state.room_transcripts.remove(room_id);
    match transcript {
        Some(mut transcript) => {
            let ghost t0 = transcript@;
            transcript.messages.insert(*user_id, Vec::new());
            proof {
                assert(transcript@.messages =~= t0.messages.insert(
                    *user_id,
                    Seq::<RoomMessage>::empty(),
                ));
            }
            state.room_transcripts.insert(*room_id, transcript);
        },
        None => {},
    }
    proof {
        assert(state@ =~= s0.with_user_in_room(*user_id, *room_id));
    }
}

/// Closes room `room_id`, with its transcript, when nobody is left in it.
/// Returns whether it did.
pub fn clean_up_room_if_empty<P>(room_id: &usize, state: &mut ServerState<P>) -> (closed: bool)
    requires
        old(state)@.rooms.contains_key(*room_id),
    ensures
        closed == (old(state)@.rooms[*room_id].len() == 0),
        final(state)@ == old(state)@.without_room_if_empty(*room_id),
        old(state)@.wf() ==> final(state)@.wf(),
        old(state)@.members_have_message_lists() ==> final(state)@.members_have_message_lists(),
{
    let amount_of_users: usize = match state.rooms.get(room_id) {
        Some(room) => room.user_ids.len(),
        None => 0,
    };
    if amount_of_users == 0 {
        state.rooms.remove(room_id);
        state.room_transcripts.remove(room_id);
        proof {
            assert(state@ =~= old(state)@.without_room_if_empty(*room_id));
        }
        true
    } else {
        false
    }
}

/// Drops the messages of user `user_id` from the transcript of `room_id`.
pub fn remove_user_from_room_transcripts<P>(
    room_id: &usize,
    user_id: &usize,
    state: &mut ServerState<P>,
)
    requires
        old(state)@.transcripts.contains_key(*room_id),
    ensures
        final(state)@ == old(state)@.without_user_messages(*room_id, *user_id),
        old(state)@.wf() ==> final(state)@.wf(),
        old(state)@.members_have_message_lists() && !(old(state)@.rooms.contains_key(*room_id)
            && old(state)@.rooms[*room_id].contains(*user_id))
            ==> final(state)@.members_have_message_lists(),
{
    let ghost s0 = state@;
    let transcript = state.room_transcripts.remove(room_id);
    match transcript {
        Some(mut transcript) => {
            let ghost t0 = transcript@;
            transcript.messages.remove(user_id);
            proof {
                assert(transcript@.messages =~= t0.messages.remove(*user_id));
            }
            state.room_transcripts.insert(*room_id, transcript);
        },
        None => {},
    }
    proof {
        assert(state@ =~= s0.without_user_messages(*room_id, *user_id));
    }
}

/// Takes user `user_id` out of room `room_id`.
pub fn remove_user_from_room<P>(room_id: &usize, user_id: &usize, state: &mut ServerState<P>)
    requires
        old(state)@.rooms.contains_key(*room_id),
    ensures
        final(state)@ == old(state)@.without_user_in_room(*room_id, *user_id),
        old(state)@.wf() ==> final(state)@.wf(),
        old(state)@.members_have_message_lists() ==> final(state)@.members_have_message_lists(),
{
    let ghost s0 = state@;
    let room = state.rooms.remove(room_id);
    match room {
        Some(mut room) => {
            room.user_ids.remove(user_id);
            state.rooms.insert(*room_id, room);
        },
        None => {},
    }
    proof {
        assert(state@ =~= s0.without_user_in_room(*room_id, *user_id));
    }
}

/// Opens room `room_id`, empty and with a fresh transcript started now,
/// unless it is open already. Returns whether it opened the room.
pub fn create_room_if_not_present<P>(room_id: &usize, state: &mut ServerState<P>) -> (created:
    bool)
    ensures
        created == !old(state)@.rooms.contains_key(*room_id),
        final(state)@ == old(state)@.with_room(*room_id, final(state)@.transcripts[*room_id]),
        created ==> {
            let t = final(state)@.transcripts[*room_id];
            &&& t.id == *room_id
            &&& t.messages == Map::<usize, Seq<RoomMessage>>::empty()
            &&& is_utc_timestamp(t.started_at)
        },
        old(state)@.wf() ==> final(state)@.wf(),
        old(state)@.members_have_message_lists() ==> final(state)@.members_have_message_lists(),
{
    if state.rooms.contains_key(room_id) {
        false
    } else {
        let room_transcript = create_initial_room_transcript(*room_id);
        open_room(room_id, room_transcript, state)
    }
}

/// Opens room `room_id`, empty and with `transcript` as its transcript,
/// unless it is open already. Returns whether it opened the room.
pub fn open_room<P>(room_id: &usize, transcript: RoomTranscript, state: &mut ServerState<P>) -> (opened: bool)
    ensures
        opened == !old(state)@.rooms.contains_key(*room_id),
        final(state)@ == old(state)@.with_room(*room_id, transcript@),
        old(state)@.wf() && transcript@.id == *room_id ==> final(state)@.wf(),
        old(state)@.members_have_message_lists() ==> final(state)@.members_have_message_lists(),
{
    if state.rooms.contains_key(room_id) {
        false
    } else {
        state.rooms.insert(*room_id, Room { user_ids: HashSet::new() });
        state.room_transcripts.insert(*room_id, transcript);
        proof {
            assert(state@ =~= old(state)@.with_room(*room_id, transcript@));
        }
        true
    }
}

} // verus!
