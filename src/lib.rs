//! Room coordination, typed message dispatch and the per-connection protocol
//! state machine of a small multiplayer lobby server.
pub mod codec;
pub mod room;
pub mod message;
pub mod server;
pub mod room_messages;
pub mod socket;
pub mod setup;
