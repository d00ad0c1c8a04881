//! Properties of the server's operations taken together.

use vstd::prelude::*;
use crate::decimal::{decimal, lemma_decimal_injective, lemma_decimal_value};
use crate::state::StateView;
use crate::transcriptor::{cleared, merged, transcript_file, RoomMessage, TranscriptView};

verus! {

/// A user who opens a room that did not exist, joins it and then
/// disconnects leaves the state exactly as it was: the user, its channel,
/// the room and the room's transcript are all gone again.
pub proof fn lemma_disconnect_undoes_join<P>(
    s: StateView<P>,
    user_id: usize,
    room_id: usize,
    peer: P,
    t: TranscriptView,
)
    requires
        s.wf(),
        !s.rooms.contains_key(room_id),
        !s.users.contains_key(user_id),
        t.messages == Map::<usize, Seq<RoomMessage>>::empty(),
    ensures
        s.with_room(room_id, t).with_user(user_id, peer).with_user_in_room(
            user_id,
            room_id,
        ).disconnected(user_id, room_id) == s,
{
    let joined = s.with_room(room_id, t).with_user(user_id, peer).with_user_in_room(
        user_id,
        room_id,
    );
    let a = joined.without_user(user_id);
    let b = a.without_user_messages(room_id, user_id);
    let c = b.without_user_in_room(room_id, user_id);
    assert(joined.rooms[room_id] =~= set![user_id]);
    assert(c.rooms[room_id] =~= Set::<usize>::empty());
    assert(!s.transcripts.contains_key(room_id));
    assert(!s.peers.contains_key(user_id));
    let d = c.without_room_if_empty(room_id);
    assert(d.rooms =~= s.rooms);
    assert(d.transcripts =~= s.transcripts);
    assert(d.users =~= s.users);
    assert(d.peers =~= s.peers);
    assert(d =~= s);
}

/// In a state where every member has a message list, a connected member of
/// an open room meets everything that handling its message asks for: the
/// room, its transcript and the member's message list are all there.
pub proof fn lemma_member_can_send<P>(s: StateView<P>, user_id: usize, room_id: usize)
    requires
        s.members_have_message_lists(),
        s.rooms.contains_key(room_id),
        s.rooms[room_id].contains(user_id),
        s.users.contains_key(user_id),
    ensures
        s.transcripts.contains_key(room_id),
        s.transcripts[room_id].messages.contains_key(user_id),
{
}

/// Opening a room that is already open changes nothing, so opening it
/// twice is the same as opening it once.
pub proof fn lemma_create_room_idempotent<P>(
    s: StateView<P>,
    room_id: usize,
    first: TranscriptView,
    second: TranscriptView,
)
    ensures
        s.with_room(room_id, first).with_room(room_id, second) == s.with_room(room_id, first),
        s.rooms.contains_key(room_id) ==> s.with_room(room_id, first) == s,
{
}

/// Putting a user who was not in a room into it and taking it out again
/// leaves the members of every room as they were.
pub proof fn lemma_remove_undoes_add_to_room<P>(s: StateView<P>, user_id: usize, room_id: usize)
    requires
        s.rooms.contains_key(room_id),
        !s.rooms[room_id].contains(user_id),
    ensures
        s.with_user_in_room(user_id, room_id).without_user_in_room(room_id, user_id).rooms
            == s.rooms,
{
    assert(s.rooms[room_id].insert(user_id).remove(user_id) =~= s.rooms[room_id]);
    assert(s.with_user_in_room(user_id, room_id).without_user_in_room(room_id, user_id).rooms
        =~= s.rooms);
}

/// In a well-formed state no two connected users share a screen name.
pub proof fn lemma_screen_names_distinct<P>(s: StateView<P>, a: usize, b: usize)
    requires
        s.wf(),
        s.users.contains_key(a),
        s.users.contains_key(b),
        a != b,
    ensures
        s.users[a] != s.users[b],
{
    lemma_decimal_injective(a as nat, b as nat);
}

/// No two rooms save their transcripts under the same file name.
pub proof fn lemma_transcript_files_distinct(a: nat, b: nat)
    requires
        a != b,
    ensures
        transcript_file(a) != transcript_file(b),
{
    reveal_strlit("room");
    reveal_strlit(".json");
    lemma_decimal_value(a);
    lemma_decimal_value(b);
    let fa = transcript_file(a);
    let fb = transcript_file(b);
    assert(fa.subrange(4, fa.len() - 5) =~= decimal(a));
    assert(fb.subrange(4, fb.len() - 5) =~= decimal(b));
    lemma_decimal_injective(a, b);
}

/// A save loses no message and no user: after merging with an earlier
/// save and clearing, every user of either remains, each merged list holds
/// the current messages followed by the saved ones, and merging with an
/// empty save changes nothing.
pub proof fn lemma_save_keeps_users_and_messages(
    cur: Map<usize, Seq<RoomMessage>>,
    prev: Map<usize, Seq<RoomMessage>>,
)
    ensures
        merged(cur, prev).dom() == cur.dom() + prev.dom(),
        cleared(merged(cur, prev)).dom() == cur.dom() + prev.dom(),
        forall|k: usize| #[trigger]
            merged(cur, prev).contains_key(k) ==> merged(cur, prev)[k] == (if cur.contains_key(
                k,
            ) {
                cur[k]
            } else {
                Seq::empty()
            }) + (if prev.contains_key(k) {
                prev[k]
            } else {
                Seq::empty()
            }),
        merged(cur, Map::empty()) == cur,
{
    assert(merged(cur, prev).dom() =~= cur.dom() + prev.dom());
    assert(cleared(merged(cur, prev)).dom() =~= cur.dom() + prev.dom());
    assert forall|k: usize| #[trigger] merged(cur, prev).contains_key(k) implies merged(cur, prev)[k]
        == (if cur.contains_key(k) {
        cur[k]
    } else {
        Seq::empty()
    }) + (if prev.contains_key(k) {
        prev[k]
    } else {
        Seq::empty()
    }) by {
        if cur.contains_key(k) && !prev.contains_key(k) {
            assert(cur[k] + Seq::<RoomMessage>::empty() =~= cur[k]);
        }
        if !cur.contains_key(k) && prev.contains_key(k) {
            assert(Seq::<RoomMessage>::empty() + prev[k] =~= prev[k]);
        }
    }
    assert(merged(cur, Map::empty()) =~= cur);
}

} // verus!
