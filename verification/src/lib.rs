//! Room-based chat server state: rooms, connected users, message
//! broadcasting and per-room transcripts.

pub mod decimal;
pub mod html;
pub mod keys;
pub mod state_types;
pub mod transcriptor;
pub mod state;
pub mod users;
pub mod rooms;
pub mod chat;
pub mod server;
pub mod laws;
