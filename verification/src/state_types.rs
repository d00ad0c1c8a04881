//! The records kept for each connected user and each open room.

use std::collections::HashSet;
use vstd::prelude::*;

verus! {

/// A connected user.
pub struct User {
    pub screen_name: String,
}

/// An open chat room and the users currently in it.
pub struct Room {
    pub user_ids: HashSet<usize>,
}

impl View for User {
    type V = Seq<char>;

    /// A user is seen as its screen name.
    open spec fn view(&self) -> Seq<char> {
        self.screen_name@
    }
}

impl View for Room {
    type V = Set<usize>;

    /// A room is seen as the set of its members.
    open spec fn view(&self) -> Set<usize> {
        self.user_ids@
    }
}

} // verus!
