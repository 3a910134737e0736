//! Core of a real-time chat backend: a rank-based authorization model for
//! editing server roles, a partial-update mutator with explicit removal
//! semantics, typed client/server notifications with their wire codec, and a
//! session-authenticated publish/subscribe registry that fans notifications
//! out to subscribed connections.

pub mod codec;
pub mod events;
pub mod message;
pub mod permissions;
pub mod rank;
pub mod registry;
pub mod role;
pub mod server;
