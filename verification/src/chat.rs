//! Broadcasting a chat message to the other users of a room.

use vstd::prelude::*;
use vstd::std_specs::hash::spec_keys_iter;
use vstd::std_specs::iter::IteratorSpec;
use crate::state::{ServerState, StateView};

verus! {

broadcast use vstd::std_specs::hash::group_hash_axioms;

/// Whether user `user_id` is to receive what `sender` says in `room_id`:
/// it is in that room, it has a channel, and it is not the sender.
pub open spec fn is_recipient<P>(s: StateView<P>, room_id: usize, sender: usize, user_id: usize) -> bool {
    &&& s.rooms[room_id].contains(user_id)
    &&& s.peers.contains_key(user_id)
    &&& user_id != sender
}

/// Whether `deliveries` hands `message` to every recipient of what `sender`
/// says in `room_id` exactly once, and to nobody else.
pub open spec fn delivers_to_room<P>(
    s: StateView<P>,
    room_id: usize,
    sender: usize,
    message: Seq<char>,
    deliveries: Seq<(usize, String)>,
) -> bool {
    &&& forall|i: int|
        0 <= i < deliveries.len() ==> is_recipient(s, room_id, sender, #[trigger] deliveries[i].0)
            && deliveries[i].1@ == message
    &&& forall|u: usize|
        is_recipient(s, room_id, sender, u) ==> exists|i: int|
            0 <= i < deliveries.len() && #[trigger] deliveries[i].0 == u
    &&& forall|i: int, j: int|
        0 <= i < deliveries.len() && 0 <= j < deliveries.len() && i != j ==> #[trigger] deliveries[i].0
            != #[trigger] deliveries[j].0
}

/// The messages to send for `message`, said by `my_id` in `room_id`: one
/// copy for each other user of the room that has a channel, paired with
/// that user's id.
pub fn broadcast_message_to_room<P>(
    room_id: &usize,
    message: String,
    state: &ServerState<P>,
    my_id: &usize,
) -> (deliveries: Vec<(usize, String)>)
    requires
        state@.rooms.contains_key(*room_id),
    ensures
        delivers_to_room(state@, *room_id, *my_id, message@, deliveries@),
{
    let ghost s = state@;
    let users_in_room = match state.rooms.get(room_id) {
        Some(room) => &room.user_ids,
        None => {
            proof {
                assert(false);
            }
            return Vec::new();
        },
    };
    assert(users_in_room@ == s.rooms[*room_id]);
    let mut deliveries: Vec<(usize, String)> = Vec::new();
    for uid in it: state.peer_map.keys()
        invariant
            it.seq() == spec_keys_iter(&state.peer_map).remaining(),
            it.seq().unref().to_set() == s.peers.dom(),
            it.seq().no_duplicates(),
            s.rooms.contains_key(*room_id),
            users_in_room@ == s.rooms[*room_id],
            s == state@,
            forall|i: int|
                0 <= i < deliveries@.len() ==> is_recipient(
                    s,
                    *room_id,
                    *my_id,
                    #[trigger] deliveries@[i].0,
                ) && deliveries@[i].1@ == message@,
            forall|u: usize|
                is_recipient(s, *room_id, *my_id, u) && it.seq().take(it.index()).unref().contains(u)
                    ==> exists|i: int| 0 <= i < deliveries@.len() && #[trigger] deliveries@[i].0 == u,
            forall|i: int|
                0 <= i < deliveries@.len() ==> it.seq().take(it.index()).unref().contains(
                    #[trigger] deliveries@[i].0,
                ),
            forall|i: int, j: int|
                0 <= i < deliveries@.len() && 0 <= j < deliveries@.len() && i != j
                    ==> #[trigger] deliveries@[i].0 != #[trigger] deliveries@[j].0,
    {
        let ghost done = it.seq().take(it.index()).unref();
        let ghost next = it.seq().take(it.index() + 1).unref();
        proof {
            broadcast use vstd::seq_lib::group_seq_properties;
            assert(next =~= done.push(*uid));
            assert(it.seq().unref().contains(*uid)) by {
                assert(it.seq().unref()[it.index()] == *uid);
            }
            assert(!done.contains(*uid)) by {
                if done.contains(*uid) {
                    let j: int = choose|j: int| 0 <= j < done.len() && done[j] == *uid;
                    assert(it.seq()[j] == it.seq()[it.index()]);
                }
            }
        }
        let ghost d0 = deliveries@;
        if *uid != *my_id && users_in_room.contains(uid) {
            deliveries.push((*uid, message.clone()));
        }
        proof {
            broadcast use vstd::seq_lib::group_seq_properties;
            assert forall|u: usize|
                is_recipient(s, *room_id, *my_id, u) && next.contains(u) implies exists|i: int|
                0 <= i < deliveries@.len() && #[trigger] deliveries@[i].0 == u by {
                if u == *uid {
                    assert(deliveries@[deliveries@.len() - 1].0 == u);
                } else {
                    assert(done.contains(u));
                    let i: int = choose|i: int| 0 <= i < d0.len() && #[trigger] d0[i].0 == u;
                    assert(deliveries@[i] == d0[i]);
                }
            }
        }
    }
    proof {
        broadcast use vstd::seq_lib::group_seq_properties;
        let all = spec_keys_iter(&state.peer_map).remaining();
        assert(all.take(all.len() as int) =~= all);
    }
    deliveries
}

} // verus!
