//! Connecting and forgetting users.

use vstd::prelude::*;
use crate::decimal::usize_to_string;
use crate::state::ServerState;
use crate::state_types::User;

verus! {

broadcast use vstd::std_specs::hash::group_hash_axioms;

/// Records user `user_id` as connected, named by its id in decimal, with
/// `tx` as the channel its messages go out on. A user already recorded is
/// replaced.
pub fn add_user_to_state<P>(user_id: &usize, state: &mut ServerState<P>, tx: P)
    ensures
        final(state)@ == old(state)@.with_user(*user_id, tx),
        old(state)@.wf() ==> final(state)@.wf(),
        old(state)@.members_have_message_lists() ==> final(state)@.members_have_message_lists(),
{
    let user = User { screen_name: usize_to_string(*user_id) };
    state.active_users.insert(*user_id, user);
    state.peer_map.insert(*user_id, tx);
    proof {
        assert(state@ =~= old(state)@.with_user(*user_id, tx));
    }
}

/// Forgets user `user_id` and its channel; a user not recorded changes nothing.
pub fn remove_user_from_state<P>(user_id: &usize, state: &mut ServerState<P>)
    ensures
        final(state)@ == old(state)@.without_user(*user_id),
        old(state)@.wf() ==> final(state)@.wf(),
        old(state)@.members_have_message_lists() ==> final(state)@.members_have_message_lists(),
{
    state.active_users.remove(user_id);
    state.peer_map.remove(user_id);
    proof {
        assert(state@ =~= old(state)@.without_user(*user_id));
    }
}

} // verus!
