//! The server's single piece of shared state, and the effect of each
//! operation on it, stated over mathematical values.

use std::collections::HashMap;
use vstd::prelude::*;
use crate::decimal::decimal;
use crate::state_types::{Room, User};
use crate::transcriptor::{RoomMessage, RoomTranscript, TranscriptView};

verus! {

broadcast use vstd::std_specs::hash::group_hash_axioms;

/// All rooms, connected users, their outgoing channels (of type `P`) and the
/// transcripts of the open rooms.
pub struct ServerState<P> {
    pub rooms: HashMap<usize, Room>,
    pub active_users: HashMap<usize, User>,
    pub peer_map: HashMap<usize, P>,
    pub room_transcripts: HashMap<usize, RoomTranscript>,
}

/// What the server state holds: members of each room, screen name of each
/// user, channel of each user, transcript of each room.
#[verifier::ext_equal]
#[verifier::reject_recursive_types(P)]
pub struct StateView<P> {
    pub rooms: Map<usize, Set<usize>>,
    pub users: Map<usize, Seq<char>>,
    pub peers: Map<usize, P>,
    pub transcripts: Map<usize, TranscriptView>,
}

impl<P> View for ServerState<P> {
    type V = StateView<P>;

    open spec fn view(&self) -> StateView<P> {
        StateView {
            rooms: self.rooms@.map_values(|r: Room| r@),
            users: self.active_users@.map_values(|u: User| u@),
            peers: self.peer_map@,
            transcripts: self.room_transcripts@.map_values(|t: RoomTranscript| t@),
        }
    }
}

impl<P> StateView<P> {
    /// The state with nothing in it.
    pub open spec fn empty() -> Self {
        StateView {
            rooms: Map::empty(),
            users: Map::empty(),
            peers: Map::empty(),
            transcripts: Map::empty(),
        }
    }

    /// The invariant that every operation keeps: each open room has a
    /// transcript under its own id and each transcript belongs to an open
    /// room; each connected user has a channel and each channel a user; a
    /// user's screen name is its id written in decimal.
    pub open spec fn wf(self) -> bool {
        &&& self.rooms.dom() == self.transcripts.dom()
        &&& forall|r: usize| #[trigger]
            self.transcripts.contains_key(r) ==> self.transcripts[r].id == r
        &&& self.users.dom() == self.peers.dom()
        &&& forall|u: usize| #[trigger]
            self.users.contains_key(u) ==> self.users[u] == decimal(u as nat)
    }

    /// Every member of an open room has a message list in the room's
    /// transcript, so whatever a member says can be recorded.
    pub open spec fn members_have_message_lists(self) -> bool {
        forall|r: usize, u: usize|
            #![trigger self.rooms[r].contains(u)]
            self.rooms.contains_key(r) && self.rooms[r].contains(u) ==> self.transcripts.contains_key(
                r,
            ) && self.transcripts[r].messages.contains_key(u)
    }

    /// Room `room_id` opened with transcript `t`, unless it is open already.
    pub open spec fn with_room(self, room_id: usize, t: TranscriptView) -> Self {
        if self.rooms.contains_key(room_id) {
            self
        } else {
            StateView {
                rooms: self.rooms.insert(room_id, Set::empty()),
                transcripts: self.transcripts.insert(room_id, t),
                ..self
            }
        }
    }

    /// User `user_id` put in room `room_id`, with an empty message list in
    /// the room's transcript (replacing any list it had there).
    pub open spec fn with_user_in_room(self, user_id: usize, room_id: usize) -> Self {
        StateView {
            rooms: self.rooms.insert(room_id, self.rooms[room_id].insert(user_id)),
            transcripts: self.transcripts.insert(
                room_id,
                TranscriptView {
                    messages: self.transcripts[room_id].messages.insert(
                        user_id,
                        Seq::<RoomMessage>::empty(),
                    ),
                    ..self.transcripts[room_id]
                },
            ),
            ..self
        }
    }

    /// User `user_id` taken out of room `room_id`.
    pub open spec fn without_user_in_room(self, room_id: usize, user_id: usize) -> Self {
        StateView { rooms: self.rooms.insert(room_id, self.rooms[room_id].remove(user_id)), ..self }
    }

    /// The messages of user `user_id` dropped from the transcript of `room_id`.
    pub open spec fn without_user_messages(self, room_id: usize, user_id: usize) -> Self {
        StateView {
            transcripts: self.transcripts.insert(
                room_id,
                TranscriptView {
                    messages: self.transcripts[room_id].messages.remove(user_id),
                    ..self.transcripts[room_id]
                },
            ),
            ..self
        }
    }

    /// Room `room_id` and its transcript closed if nobody is in it.
    pub open spec fn without_room_if_empty(self, room_id: usize) -> Self {
        if self.rooms[room_id].len() == 0 {
            StateView {
                rooms: self.rooms.remove(room_id),
                transcripts: self.transcripts.remove(room_id),
                ..self
            }
        } else {
            self
        }
    }

    /// User `user_id` connected through channel `peer`, named by its id.
    pub open spec fn with_user(self, user_id: usize, peer: P) -> Self {
        StateView {
            users: self.users.insert(user_id, decimal(user_id as nat)),
            peers: self.peers.insert(user_id, peer),
            ..self
        }
    }

    /// Message `m` added at the end of what user `user_id` said in the
    /// transcript of `room_id`.
    pub open spec fn with_message(self, room_id: usize, user_id: usize, m: RoomMessage) -> Self {
        StateView {
            transcripts: self.transcripts.insert(
                room_id,
                TranscriptView {
                    messages: self.transcripts[room_id].messages.insert(
                        user_id,
                        self.transcripts[room_id].messages[user_id].push(m),
                    ),
                    ..self.transcripts[room_id]
                },
            ),
            ..self
        }
    }

    /// User `user_id` and its channel forgotten.
    pub open spec fn without_user(self, user_id: usize) -> Self {
        StateView { users: self.users.remove(user_id), peers: self.peers.remove(user_id), ..self }
    }

    /// A user leaving a room for good: forgotten as a user, its messages
    /// dropped from the room's transcript, taken out of the room, and the
    /// room closed if that left it empty.
    pub open spec fn disconnected(self, user_id: usize, room_id: usize) -> Self {
        self.without_user(user_id).without_user_messages(room_id, user_id).without_user_in_room(
            room_id,
            user_id,
        ).without_room_if_empty(room_id)
    }
}

impl<P> ServerState<P> {
    /// A state with no room and no user.
    pub fn new() -> (state: Self)
        ensures
            state@ == StateView::<P>::empty(),
            state@.wf(),
            state@.members_have_message_lists(),
    {
        let state = ServerState {
            rooms: HashMap::new(),
            active_users: HashMap::new(),
            peer_map: HashMap::new(),
            room_transcripts: HashMap::new(),
        };
        proof {
            assert(state@ =~= StateView::<P>::empty());
        }
        state
    }
}

} // verus!
