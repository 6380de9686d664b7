//! A multi-room chat server core: the durable room/user/message store, the
//! user-to-connection registry, membership-gated broadcast and the
//! per-connection session state machine.

pub mod appstate;
pub mod message_structs;
pub mod registry;
pub mod services;
pub mod store;
pub mod structs;
pub mod websocket;
